//! End-to-end coverage of the Vesta Lean fixture exporter on captures whose commitment bases are
//! all distinct and non-identity, so that the exporter runs to completion.

use std::collections::HashMap;

use ff::{Field, PrimeField};
use group::prime::PrimeCurveAffine;
use group::Curve;
use pasta_curves::arithmetic::CurveAffine;

use vesta_fixture::circuit::{
    Any, Column, ConstraintSystem, Expression, Gate, LookupArgument, Query,
};
use vesta_fixture::curve::EqAffine;
use vesta_fixture::field::{Fp, Fq};
use vesta_fixture::key::{ExportError, VerifyingKey};
use vesta_fixture::msm::{Params, MSM};
use vesta_fixture::transcript::{ChallengeRecorder, TranscriptEvent};

type Scalar = pasta_curves::Fp;
type Point = pasta_curves::EqAffine;

const K: u32 = 5;

fn scalar(s: Scalar) -> Fp {
    Fp::from_repr(s.to_repr()).unwrap()
}

fn point(p: Point) -> EqAffine {
    match Option::<pasta_curves::arithmetic::Coordinates<Point>>::from(p.coordinates()) {
        Some(c) => EqAffine::from_xy(
            Fq::from_repr(c.x().to_repr()).unwrap(),
            Fq::from_repr(c.y().to_repr()).unwrap(),
        )
        .unwrap(),
        None => EqAffine::identity(),
    }
}

fn scalars(list: &[Scalar]) -> Vec<Fp> {
    list.iter().map(|s| scalar(*s)).collect()
}

fn points(list: &[Point]) -> Vec<EqAffine> {
    list.iter().map(|p| point(*p)).collect()
}

fn multiple(m: u64) -> Point {
    (Point::generator() * Scalar::from(m)).to_affine()
}

/// What happened to the transcript, in the types of the curve crate.
#[derive(Clone, Copy)]
enum Event {
    CommonPoint(Point),
    CommonScalar(Scalar),
    ReadPoint(Point),
    ReadScalar(Scalar),
    Squeeze(Scalar),
}

/// A capture in the types of the curve crate, open to every change that a test needs.
struct Sample {
    num_proofs: usize,
    n_advice: usize,
    n_instance: usize,
    n_lookups: usize,
    n_quotient: usize,
    n_point_sets: usize,
    cs_degree: usize,
    permutation: Vec<(Any, usize)>,
    advice_queries: Vec<(usize, i32)>,
    instance_queries: Vec<(usize, i32)>,
    fixed_queries: Vec<(usize, i32)>,
    omega: Scalar,
    transcript_repr: Scalar,
    fixed: Vec<Point>,
    permutation_commitments: Vec<Point>,
    k: u32,
    g: Vec<Point>,
    w: Point,
    u: Point,
    common: Vec<Point>,
    read_points: Vec<Point>,
    read_scalars: Vec<Scalar>,
    challenges: Vec<Scalar>,
    events: Vec<Event>,
    g_scalars: Option<Vec<Scalar>>,
    w_scalar: Option<Scalar>,
    u_scalar: Option<Scalar>,
    other: Vec<(Scalar, Point)>,
}

fn gates() -> Vec<Gate> {
    let product = Expression::Product(
        Box::new(Expression::Fixed(0)),
        Box::new(Expression::Sum(
            Box::new(Expression::Product(
                Box::new(Expression::Advice(1)),
                Box::new(Expression::Advice(2)),
            )),
            Box::new(Expression::Negated(Box::new(Expression::Advice(0)))),
        )),
    );
    let scaled = Expression::Scaled(
        Box::new(Expression::Instance(0)),
        scalar(Scalar::from(11)),
    );
    let constant = Expression::Constant(scalar(-Scalar::ONE));
    vec![
        Gate { polynomials: vec![product] },
        Gate { polynomials: vec![scaled, constant] },
    ]
}

fn lookup() -> LookupArgument {
    LookupArgument {
        input_expressions: vec![Expression::Advice(0), Expression::Instance(0)],
        table_expressions: vec![Expression::Fixed(1)],
    }
}

impl Sample {
    /// A capture like that of a circuit with one multiplication gate, a permutation and lookups.
    fn new(num_proofs: usize, n_lookups: usize, chunk_len: usize) -> Sample {
        let (n_advice, n_instance, n_quotient, n_point_sets) = (3usize, 1usize, 3usize, 4usize);
        let k = K;
        let permutation = vec![
            (Any::Advice, 2usize),
            (Any::Instance, 0usize),
            (Any::Fixed, 1usize),
        ];
        let n_sets = (permutation.len() + chunk_len - 1) / chunk_len;
        let mut next = 1u64;
        let mut fresh = |n: usize| -> Vec<(Scalar, Point)> {
            (0..n)
                .map(|_| {
                    next += 1;
                    (Scalar::from(next), multiple(next))
                })
                .collect()
        };
        let only = |l: &Vec<(Scalar, Point)>| -> Vec<Point> { l.iter().map(|x| x.1).collect() };
        let g = fresh(1 << k);
        let wu = fresh(2);
        let fixed = fresh(2);
        let perm = fresh(permutation.len());
        let common = fresh(num_proofs * n_instance);
        let advice = fresh(num_proofs * n_advice);
        let lookup_permuted = fresh(num_proofs * n_lookups * 2);
        let products = fresh(num_proofs * n_sets + num_proofs * n_lookups);
        let vanishing = fresh(1);
        let h = fresh(n_quotient);
        let q_prime = fresh(1);
        let ipa_s = fresh(1);
        let rounds = fresh(2 * k as usize);

        let mut next_scalar = 1000u64;
        let mut fresh_scalars = |n: usize| -> Vec<Scalar> {
            (0..n)
                .map(|_| {
                    next_scalar += 7;
                    Scalar::from(next_scalar).square().square().square().square().square()
                })
                .collect()
        };
        let set_evals = if n_sets == 0 { 0 } else { 3 * n_sets - 1 };
        let evals = fresh_scalars(
            num_proofs * 1 + num_proofs * 3 + 2 + 1 + permutation.len()
                + num_proofs * set_evals
                + num_proofs * n_lookups * 5,
        );
        let multiopen = fresh_scalars(n_point_sets);
        let last = fresh_scalars(2);
        let challenges = fresh_scalars(11 + k as usize);
        let transcript_repr = fresh_scalars(1)[0];

        let mut events = vec![Event::CommonScalar(transcript_repr)];
        for p in &common {
            events.push(Event::CommonPoint(p.1));
        }
        let mut squeeze = 0usize;
        let mut read = |events: &mut Vec<Event>, ps: &[(Scalar, Point)], ss: &[Scalar], n: usize| {
            for p in ps {
                events.push(Event::ReadPoint(p.1));
            }
            for s in ss {
                events.push(Event::ReadScalar(*s));
            }
            for _ in 0..n {
                events.push(Event::Squeeze(challenges[squeeze]));
                squeeze += 1;
            }
        };
        read(&mut events, &advice, &[], 1);
        read(&mut events, &lookup_permuted, &[], 2);
        read(&mut events, &products, &[], 0);
        read(&mut events, &vanishing, &[], 1);
        read(&mut events, &h, &[], 1);
        read(&mut events, &[], &evals, 2);
        read(&mut events, &q_prime, &[], 1);
        read(&mut events, &[], &multiopen, 1);
        read(&mut events, &ipa_s, &[], 2);
        for r in 0..k as usize {
            read(&mut events, &rounds[2 * r..2 * r + 2], &[], 1);
        }
        read(&mut events, &[], &last, 0);

        let mut read_points = Vec::new();
        for block in [
            &advice, &lookup_permuted, &products, &vanishing, &h, &q_prime, &ipa_s, &rounds,
        ] {
            read_points.extend(only(block));
        }
        let mut read_scalars = evals.clone();
        read_scalars.extend(multiopen);
        read_scalars.extend(last);

        // A sum of multiples of the generator whose last coefficient cancels all others.
        let mut sum = Scalar::ZERO;
        let mut other = Vec::new();
        for (i, (m, p)) in [
            &common, &advice, &fixed, &perm, &products, &lookup_permuted, &vanishing, &h,
            &q_prime, &ipa_s, &rounds,
        ]
        .iter()
        .flat_map(|b| b.iter())
        .enumerate()
        {
            let s = Scalar::from(3 * i as u64 + 5);
            sum += s * m;
            other.push((s, *p));
        }
        let g_scalars: Vec<Scalar> = (0..1u64 << k).map(|i| Scalar::from(i + 1)).collect();
        for (s, (m, _)) in g_scalars.iter().zip(&g) {
            sum += *s * m;
        }
        let w_scalar = Scalar::from(77);
        sum += w_scalar * wu[0].0;
        let u_scalar = -sum * wu[1].0.invert().unwrap();

        Sample {
            num_proofs,
            n_advice,
            n_instance,
            n_lookups,
            n_quotient,
            n_point_sets,
            cs_degree: chunk_len + 2,
            permutation,
            advice_queries: vec![(2, 0), (0, 0), (1, -1)],
            instance_queries: vec![(0, 0)],
            fixed_queries: vec![(0, 0), (1, 0)],
            omega: Scalar::from(1234567),
            transcript_repr,
            fixed: only(&fixed),
            permutation_commitments: only(&perm),
            k,
            g: only(&g),
            w: wu[0].1,
            u: wu[1].1,
            common: only(&common),
            read_points,
            read_scalars,
            challenges,
            events,
            g_scalars: Some(g_scalars),
            w_scalar: Some(w_scalar),
            u_scalar: Some(u_scalar),
            other,
        }
    }

    fn key(&self) -> VerifyingKey {
        let queries = |l: &Vec<(usize, i32)>| -> Vec<Query> {
            l.iter().map(|(column, rotation)| Query { column: *column, rotation: *rotation }).collect()
        };
        VerifyingKey {
            cs: ConstraintSystem {
                num_advice_columns: self.n_advice,
                num_instance_columns: self.n_instance,
                gates: gates(),
                advice_queries: queries(&self.advice_queries),
                instance_queries: queries(&self.instance_queries),
                fixed_queries: queries(&self.fixed_queries),
                permutation_columns: self
                    .permutation
                    .iter()
                    .map(|(t, i)| Column { index: *i, column_type: *t })
                    .collect(),
                lookups: (0..self.n_lookups).map(|_| lookup()).collect(),
                blinding_factors: 5,
            },
            cs_degree: self.cs_degree,
            omega: scalar(self.omega),
            quotient_poly_degree: self.n_quotient,
            transcript_repr: scalar(self.transcript_repr),
            fixed_commitments: points(&self.fixed),
            permutation_commitments: points(&self.permutation_commitments),
        }
    }

    fn params(&self) -> Params {
        Params { k: self.k, g: points(&self.g), w: point(self.w), u: point(self.u) }
    }

    fn recorder(&self) -> ChallengeRecorder {
        ChallengeRecorder {
            common_points: points(&self.common),
            points: points(&self.read_points),
            scalars: scalars(&self.read_scalars),
            challenges: scalars(&self.challenges),
            events: self
                .events
                .iter()
                .map(|e| match e {
                    Event::CommonPoint(p) => TranscriptEvent::CommonPoint(point(*p)),
                    Event::CommonScalar(s) => TranscriptEvent::CommonScalar(scalar(*s)),
                    Event::ReadPoint(p) => TranscriptEvent::ReadPoint(point(*p)),
                    Event::ReadScalar(s) => TranscriptEvent::ReadScalar(scalar(*s)),
                    Event::Squeeze(s) => TranscriptEvent::Squeeze(scalar(*s)),
                })
                .collect(),
        }
    }

    fn msm<'a>(&self, params: &'a Params) -> MSM<'a> {
        MSM {
            params,
            g_scalars: self.g_scalars.as_ref().map(|l| scalars(l)),
            w_scalar: self.w_scalar.map(scalar),
            u_scalar: self.u_scalar.map(scalar),
            other: self
                .other
                .iter()
                .map(|(s, p)| {
                    let (x, y) = match point(*p).coordinates() {
                        Some(c) => c,
                        None => (zero_base(), zero_base()),
                    };
                    (scalar(*s), x, y)
                })
                .collect(),
        }
    }

    fn export(&self, namespace: &str, id: &str) -> Result<String, ExportError> {
        let params = self.params();
        self.key().try_dump_vesta_lean_fixture(
            namespace,
            id,
            K,
            self.num_proofs,
            &self.recorder(),
            &self.msm(&params),
        )
    }

    fn refusal(&self) -> ExportError {
        self.export("Halo2.Fixture.Render", "render").expect_err("the capture must be refused")
    }
}

fn zero_base() -> Fq {
    Fq::from_repr([0u8; 32]).unwrap()
}

// ---- the expected text, written out with `format!` over the types of the curve crate ----

fn field<F: PrimeField>(constructor: &str, x: F) -> String {
    let repr = x.to_repr();
    let b = repr.as_ref();
    let limb = |i: usize| -> u64 {
        let mut v: u64 = 0;
        for j in 0..8 {
            v |= (b[i * 8 + j] as u64) << (8 * j);
        }
        v
    };
    format!("({} {} {} {} {})", constructor, limb(0), limb(1), limb(2), limb(3))
}

fn fp(x: Scalar) -> String {
    field("mkFp", x)
}

fn join_fps(xs: &[Scalar]) -> String {
    xs.iter().map(|x| fp(*x)).collect::<Vec<_>>().join(", ")
}

struct Table {
    ids: HashMap<Vec<u8>, usize>,
    points: Vec<Point>,
}

impl Table {
    fn reference(&mut self, p: Point) -> String {
        let c = p.coordinates().unwrap();
        let mut key = c.x().to_repr().to_vec();
        key.extend_from_slice(&c.y().to_repr());
        let n = self.points.len();
        let id = *self.ids.entry(key).or_insert(n);
        if id == n {
            self.points.push(p);
        }
        format!("capturedPoint {}", id)
    }

    fn list(&mut self, ps: &[Point]) -> String {
        let refs: Vec<String> = ps.iter().map(|p| self.reference(*p)).collect();
        refs.join(", ")
    }
}

fn expected(s: &Sample, namespace: &str, id: &str) -> String {
    let np = s.num_proofs;
    let chunk = s.cs_degree - 2;
    let n_sets = s.permutation.chunks(chunk).count();
    let (a, l) = (s.n_advice, s.n_lookups);
    let mut t = Table { ids: HashMap::new(), points: Vec::new() };
    let mut rest = s.read_points.as_slice();
    let mut take = |n: usize| -> Vec<Point> {
        let (head, tail) = rest.split_at(n);
        rest = tail;
        head.to_vec()
    };
    let advice = take(np * a);
    let lookup_permuted = take(np * l * 2);
    let perm_products = take(np * n_sets);
    let lookup_products = take(np * l);
    let vanishing = take(1)[0];
    let h = take(s.n_quotient);
    let q_prime = take(1)[0];
    let ipa_s = take(1)[0];
    let rounds = take(2 * K as usize);
    assert!(take(0).is_empty());
    let mut srest = s.read_scalars.as_slice();
    let mut stake = |n: usize| -> Vec<Scalar> {
        let (head, tail) = srest.split_at(n);
        srest = tail;
        head.to_vec()
    };
    let set_count = 3 * n_sets - 1;
    let instance_evals = stake(np * s.instance_queries.len());
    let advice_evals = stake(np * s.advice_queries.len());
    let fixed_evals = stake(s.fixed_queries.len());
    let vanishing_eval = stake(1)[0];
    let common_evals = stake(s.permutation_commitments.len());
    let set_evals = stake(np * set_count);
    let lookup_evals = stake(np * l * 5);
    let multiopen = stake(s.n_point_sets);
    let ipa_c = stake(1)[0];
    let ipa_f = stake(1)[0];

    let urs_g = t.list(&s.g);
    let urs_w = t.reference(s.w);
    let urs_u = t.reference(s.u);
    let mut out = String::new();
    out.push_str(&format!("def shape : Shape := {{ k := {}, numProofs := {}, numAdviceColumns := {}, numLookups := {}, numPermutationSets := {}, numPermutationColumns := {}, numQuotientPieces := {}, numInstanceQueries := {}, numAdviceQueries := {}, numFixedQueries := {}, numPointSets := {} }}\n\n", K, np, a, l, n_sets, s.permutation_commitments.len(), s.n_quotient, s.instance_queries.len(), s.advice_queries.len(), s.fixed_queries.len(), s.n_point_sets));
    out.push_str(&format!("def capturedUrsG : List G := [{}]\n\n", urs_g));
    out.push_str(&format!("def capturedURS : URS G := {{ k := {}, g := fun i => capturedUrsG.getD i.val 0, w := {}, u := {} }}\n\n", K, urs_w, urs_u));
    out.push_str("/-- The captured URS lists exactly the `2 ^ k` generators the MSM evaluates\n");
    out.push_str("against, so `capturedURS.g`'s `getD` never substitutes the identity for a\n");
    out.push_str("missing generator. -/\n");
    out.push_str("theorem capturedUrsG_length : capturedUrsG.length = 2 ^ shape.k := by native_decide\n\n");
    out.push_str(&format!("def capturedVkTranscriptRepr : Fp := {}\n\n", fp(s.transcript_repr)));

    let layout = |q: &Vec<(usize, i32)>| -> String {
        let parts: Vec<String> = q.iter().map(|(c, r)| format!("({}, ({} : ℤ))", c, r)).collect();
        parts.join(", ")
    };
    let query_index = |kind: Any, column: usize| -> usize {
        let q = match kind {
            Any::Advice => &s.advice_queries,
            Any::Fixed => &s.fixed_queries,
            Any::Instance => &s.instance_queries,
        };
        q.iter().position(|e| *e == (column, 0)).unwrap()
    };
    let mut chunks = Vec::new();
    let mut gidx = 0;
    for c in s.permutation.chunks(chunk) {
        let mut entries = Vec::new();
        for (kind, column) in c {
            let qi = query_index(*kind, *column);
            let cref = match kind {
                Any::Advice => format!("(.advice {})", qi),
                Any::Fixed => format!("(.fixed {})", qi),
                Any::Instance => format!("(.instance {})", qi),
            };
            entries.push(format!("({}, {})", cref, gidx));
            gidx += 1;
        }
        chunks.push(format!("[{}]", entries.join(", ")));
    }
    let gates = format!("(.product (.fixed 0) (.sum (.product (.advice 1) (.advice 2)) (.negated (.advice 0)))), (.scaled (.instance 0) {}), (.constant {})", fp(Scalar::from(11)), fp(-Scalar::ONE));
    let lookup_inputs = vec!["[(.advice 0), (.instance 0)]"; l].join(", ");
    let lookup_tables = vec!["[(.fixed 1)]"; l].join(", ");
    let fixed_points = t.list(&s.fixed);
    let inst_points = t.list(&s.common);
    let perm_points = t.list(&s.permutation_commitments);
    out.push_str(&format!("def capturedNumInstanceColumns : ℕ := {}\n\n", s.n_instance));
    out.push_str(&format!("def capturedFixedCommitments : List G := [{}]\n\n", fixed_points));
    out.push_str(&format!("def capturedInstanceCommitments : List G := [{}]\n\n", inst_points));
    out.push_str(&format!("def capturedPermutationCommonCommitments : List G := [{}]\n\n", perm_points));
    out.push_str("def vk : VerifyingKey shape Fp G := {\n");
    out.push_str(&format!("  omega := {},\n", fp(s.omega)));
    out.push_str(&format!("  n := {},\n", 1u64 << K));
    out.push_str(&format!("  blindingFactors := {},\n", 5));
    out.push_str(&format!("  delta := {},\n", fp(Scalar::DELTA)));
    out.push_str(&format!("  chunkLen := {},\n", chunk));
    out.push_str(&format!("  gates := [{}],\n", gates));
    out.push_str(&format!("  instanceQueryLayout := [{}],\n", layout(&s.instance_queries)));
    out.push_str(&format!("  adviceQueryLayout := [{}],\n", layout(&s.advice_queries)));
    out.push_str(&format!("  fixedQueryLayout := [{}],\n", layout(&s.fixed_queries)));
    out.push_str("  fixedCommitment := fun i => capturedFixedCommitments.getD i 0,\n");
    out.push_str("  instanceCommitment := fun p i => capturedInstanceCommitments.getD (p.val * capturedNumInstanceColumns + i) 0,\n");
    out.push_str("  permutationCommonCommitment := fun i => capturedPermutationCommonCommitments.getD i.val 0,\n");
    out.push_str(&format!("  permutationChunks := [{}],\n", chunks.join(", ")));
    out.push_str(&format!("  lookupInputExprs := fun l => ([{}] : List (List (Expr Fp))).getD l.val [],\n", lookup_inputs));
    out.push_str(&format!("  lookupTableExprs := fun l => ([{}] : List (List (Expr Fp))).getD l.val [] }}\n\n", lookup_tables));

    let advice_points = t.list(&advice);
    let inputs: Vec<Point> = lookup_permuted.chunks(2).map(|c| c[0]).collect();
    let tables: Vec<Point> = lookup_permuted.chunks(2).map(|c| c[1]).collect();
    let input_points = t.list(&inputs);
    let table_points = t.list(&tables);
    let perm_prod_points = t.list(&perm_products);
    let lookup_prod_points = t.list(&lookup_products);
    let h_points = t.list(&h);
    let vanishing_point = t.reference(vanishing);
    let q_prime_point = t.reference(q_prime);
    let ipa_s_point = t.reference(ipa_s);
    let mut round_points = Vec::new();
    for r in rounds.chunks(2) {
        let left = t.reference(r[0]);
        let right = t.reference(r[1]);
        round_points.push(format!("({}, {})", left, right));
    }
    let mut set_lits = Vec::new();
    let mut idx = 0;
    for _ in 0..np {
        for set in 0..n_sets {
            let (eval, next) = (set_evals[idx], set_evals[idx + 1]);
            idx += 2;
            let last = if set + 1 < n_sets {
                idx += 1;
                format!("some {}", fp(set_evals[idx - 1]))
            } else {
                "none".to_string()
            };
            set_lits.push(format!("{{ eval := {}, nextEval := {}, lastEval := {} }}", fp(eval), fp(next), last));
        }
    }
    let lookup_lits: Vec<String> = lookup_evals
        .chunks(5)
        .map(|e| format!("{{ productEval := {}, productNextEval := {}, permutedInputEval := {}, permutedInputInvEval := {}, permutedTableEval := {} }}", fp(e[0]), fp(e[1]), fp(e[2]), fp(e[3]), fp(e[4])))
        .collect();
    out.push_str(&format!("def capturedAdviceCommitments : List G := [{}]\n\n", advice_points));
    out.push_str(&format!("def capturedLookupPermutedInput : List G := [{}]\n\n", input_points));
    out.push_str(&format!("def capturedLookupPermutedTable : List G := [{}]\n\n", table_points));
    out.push_str(&format!("def capturedPermutationProducts : List G := [{}]\n\n", perm_prod_points));
    out.push_str(&format!("def capturedLookupProducts : List G := [{}]\n\n", lookup_prod_points));
    out.push_str(&format!("def capturedHPieces : List G := [{}]\n\n", h_points));
    out.push_str(&format!("def capturedInstanceEvals : List Fp := [{}]\n\n", join_fps(&instance_evals)));
    out.push_str(&format!("def capturedAdviceEvals : List Fp := [{}]\n\n", join_fps(&advice_evals)));
    out.push_str(&format!("def capturedFixedEvals : List Fp := [{}]\n\n", join_fps(&fixed_evals)));
    out.push_str(&format!("def capturedPermutationCommonEvals : List Fp := [{}]\n\n", join_fps(&common_evals)));
    out.push_str(&format!("def capturedPermutationSetEvals : List (PermSetEval Fp) := [{}]\n\n", set_lits.join(", ")));
    out.push_str(&format!("def capturedLookupEvals : List (LookupEval Fp) := [{}]\n\n", lookup_lits.join(", ")));
    out.push_str(&format!("def capturedMultiopenU : List Fp := [{}]\n\n", join_fps(&multiopen)));
    out.push_str(&format!("def capturedIpaRounds : List (G × G) := [{}]\n\n", round_points.join(", ")));
    out.push_str("def ps : ProofString shape Fp G := {\n");
    out.push_str(&format!("  adviceCommitments := fun p c => capturedAdviceCommitments.getD (p.val * {} + c.val) 0,\n", a));
    out.push_str(&format!("  lookupPermutedInput := fun p l => capturedLookupPermutedInput.getD (p.val * {} + l.val) 0,\n", l));
    out.push_str(&format!("  lookupPermutedTable := fun p l => capturedLookupPermutedTable.getD (p.val * {} + l.val) 0,\n", l));
    out.push_str(&format!("  permutationProduct := fun p s => capturedPermutationProducts.getD (p.val * {} + s.val) 0,\n", n_sets));
    out.push_str(&format!("  lookupProduct := fun p l => capturedLookupProducts.getD (p.val * {} + l.val) 0,\n", l));
    out.push_str(&format!("  vanishingRandom := {},\n", vanishing_point));
    out.push_str("  hPieces := fun i => capturedHPieces.getD i.val 0,\n");
    out.push_str(&format!("  instanceEvals := fun p q => capturedInstanceEvals.getD (p.val * {} + q.val) 0,\n", s.instance_queries.len()));
    out.push_str(&format!("  adviceEvals := fun p q => capturedAdviceEvals.getD (p.val * {} + q.val) 0,\n", s.advice_queries.len()));
    out.push_str("  fixedEvals := fun q => capturedFixedEvals.getD q.val 0,\n");
    out.push_str(&format!("  vanishingRandomEval := {},\n", fp(vanishing_eval)));
    out.push_str("  permutationCommonEvals := fun i => capturedPermutationCommonEvals.getD i.val 0,\n");
    out.push_str(&format!("  permutationSetEvals := fun p s => capturedPermutationSetEvals.getD (p.val * {} + s.val) {{ eval := 0, nextEval := 0, lastEval := none }},\n", n_sets));
    out.push_str(&format!("  lookupEvals := fun p l => capturedLookupEvals.getD (p.val * {} + l.val) {{ productEval := 0, productNextEval := 0, permutedInputEval := 0, permutedInputInvEval := 0, permutedTableEval := 0 }},\n", l));
    out.push_str(&format!("  multiopenQPrime := {},\n", q_prime_point));
    out.push_str("  multiopenU := fun s => capturedMultiopenU.getD s.val 0,\n");
    out.push_str(&format!("  ipaS := {},\n", ipa_s_point));
    out.push_str("  ipaRounds := fun j => capturedIpaRounds.getD j.val (0, 0),\n");
    out.push_str(&format!("  ipaC := {},\n", fp(ipa_c)));
    out.push_str(&format!("  ipaF := {} }}\n\n", fp(ipa_f)));

    let c: Vec<String> = s.challenges.iter().map(|x| fp(*x)).collect();
    out.push_str("def ch : Challenges shape.k Fp := {\n");
    out.push_str(&format!("  theta := {}, beta := {}, gamma := {}, y := {}, x := {},\n", c[0], c[1], c[2], c[3], c[4]));
    out.push_str(&format!("  x1 := {}, x2 := {}, x3 := {}, x4 := {},\n", c[5], c[6], c[7], c[8]));
    out.push_str(&format!("  xi := {}, z := {},\n", c[9], c[10]));
    out.push_str(&format!("  ipaRound := fun j => ([{}] : List Fp).getD j.val 0 }}\n\n", c[11..].join(", ")));

    let mut init = Vec::new();
    let mut prefix: Vec<String> = Vec::new();
    let mut entries = Vec::new();
    for (i, e) in s.events.iter().enumerate() {
        let elt = match e {
            Event::CommonPoint(p) | Event::ReadPoint(p) => {
                format!("TranscriptElt.point ({})", t.reference(*p))
            }
            Event::CommonScalar(x) | Event::ReadScalar(x) | Event::Squeeze(x) => {
                format!("TranscriptElt.scalar {}", fp(*x))
            }
        };
        if let Event::Squeeze(x) = e {
            entries.push(format!("([{}], {})", prefix.join(", "), fp(*x)));
        }
        if i < 1 + s.common.len() {
            init.push(elt.clone());
        }
        prefix.push(elt);
    }
    out.push_str("/-- Captured verifier Fiat-Shamir prefix before the proof-derived transcript suffix.\n");
    out.push_str("Generated from `ChallengeRecorder`'s verification-key and instance absorb events. -/\n");
    out.push_str("def capturedInit : List (TranscriptElt Fp G) :=\n");
    out.push_str(&format!("  [{}]\n\n", init.join(", ")));
    out.push_str("theorem capturedInit_startsWith_vkTranscriptRepr :\n");
    out.push_str("    capturedInit.head? = some (TranscriptElt.scalar capturedVkTranscriptRepr) := by native_decide\n\n");
    out.push_str("/-- Captured verifier Fiat-Shamir schedule, including the captured prefix.\n");
    out.push_str("Generated from `ChallengeRecorder`'s ordered absorb/squeeze events. After each\n");
    out.push_str("squeeze the captured challenge is appended as an abstract separator (mirroring\n");
    out.push_str("`deriveChallenges`); the deployed Blake2b transcript uses a domain-prefix byte. -/\n");
    out.push_str("def capturedScheduleEntries : List (List (TranscriptElt Fp G) × Fp) :=\n");
    out.push_str(&format!("  [{}]\n\n", entries.join(", ")));

    let mut terms = Vec::new();
    for (x, p) in &s.other {
        terms.push(format!("({}, {})", fp(*x), t.reference(*p)));
    }
    out.push_str("def capturedMsm : Msm shape.k Fp G := {\n");
    out.push_str(&format!("  gScalars := fun i => (#[{}] : Array Fp)[i.val]!,\n", join_fps(s.g_scalars.as_ref().unwrap())));
    out.push_str(&format!("  wScalar := {},\n", fp(s.w_scalar.unwrap())));
    out.push_str(&format!("  uScalar := {},\n", fp(s.u_scalar.unwrap())));
    out.push_str(&format!("  other := [{}] }}\n\n", terms.join(", ")));
    out.push_str("theorem fingerprint_matches : MsmMatch (assemble vk ps ch) capturedMsm := by native_decide\n\n");
    out.push_str("theorem capturedMsm_eval_eq_zero : capturedMsm.evalNat capturedURS = 0 := by native_decide\n\n");
    out.push_str("/-- Meaningful jointly with `fingerprint_matches`: `assemble`'s zero-MSM rejection\n");
    out.push_str("fallback also evaluates to zero, so this statement alone is not acceptance. -/\n");
    out.push_str("theorem assembledMsm_eval_eq_zero : (assemble vk ps ch).evalNat capturedURS = 0 := by\n");
    out.push_str("  rw [msmMatch_evalNat capturedURS fingerprint_matches]\n");
    out.push_str("  exact capturedMsm_eval_eq_zero\n\n");
    out.push_str(&format!("end {}\n", namespace));

    let coordinates: Vec<String> = t
        .points
        .iter()
        .map(|p| {
            let c = p.coordinates().unwrap();
            format!("({}, {})", field("mkFq", *c.x()), field("mkFq", *c.y()))
        })
        .collect();
    let body = out;
    let mut out = String::new();
    out.push_str("-- Auto-generated by halo2 `dump_vesta_lean_fixture`. Do not edit by hand.\n");
    out.push_str(&format!("import Zcash.Snark\n\nset_option maxRecDepth 1000000\n\nnamespace {}\n\nopen Zcash.Snark\nopen CompElliptic.CurveForms.ShortWeierstrass\nopen CompElliptic.Curves.Pasta\nopen CompElliptic.Fields.Pasta\n\n", namespace));
    out.push_str("/-- Scalar field element from four little-endian u64 limbs. -/\n");
    out.push_str("def mkFp (a b c d : ℕ) : Fp := (a : Fp) + (b : Fp) * (2 : Fp) ^ 64 + (c : Fp) * (2 : Fp) ^ 128 + (d : Fp) * (2 : Fp) ^ 192\n\n");
    out.push_str("abbrev Fq := VestaBaseField\n\n");
    out.push_str("/-- Vesta base field element from four little-endian u64 limbs. -/\n");
    out.push_str("def mkFq (a b c d : ℕ) : Fq := (a : Fq) + (b : Fq) * (2 : Fq) ^ 64 + (c : Fq) * (2 : Fq) ^ 128 + (d : Fq) * (2 : Fq) ^ 192\n\n");
    out.push_str("abbrev G := VestaG\n\n");
    out.push_str("instance : Inhabited G := ⟨0⟩\n\n");
    out.push_str(&format!("def capturedCircuitId : String := {:?}\n\n", id));
    out.push_str("/-- Canonical affine coordinates for every distinct Vesta point used by this fixture. -/\n");
    out.push_str(&format!("def capturedPointCoordinates : List (Fq × Fq) := [{}]\n\n", coordinates.join(", ")));
    out.push_str("def capturedPointCoordinatesValid : Bool :=\n");
    out.push_str("  capturedPointCoordinates.all fun p => decide (OnCurve Vesta.a Vesta.b p) || decide (p = (0, 0))\n\n");
    out.push_str("theorem capturedPointCoordinatesValid_eq_true : capturedPointCoordinatesValid = true := by native_decide\n\n");
    out.push_str("def mkVestaPoint (p : Fq × Fq) : G :=\n");
    out.push_str("  if h : OnCurve Vesta.a Vesta.b p then ⟨p.1, p.2, Or.inl h⟩\n");
    out.push_str("  else if h0 : p = (0, 0) then ⟨p.1, p.2, Or.inr h0⟩ else 0\n\n");
    out.push_str("def capturedPoints : List G := capturedPointCoordinates.map mkVestaPoint\n\n");
    out.push_str("def capturedPoint (i : ℕ) : G := capturedPoints.getD i 0\n\n");
    out.push_str(&body);
    out
}

#[test]
fn exports_accepting_fixture() {
    let sample = Sample::new(1, 1, 2);
    let params = sample.params();
    let msm = sample.msm(&params);
    assert!(msm.eval(), "a valid proof's fingerprint must be the identity");

    let fixture = sample.key().dump_vesta_lean_fixture(
        "Halo2.Fixture.Render",
        "render_accept",
        K,
        1,
        &sample.recorder(),
        &msm,
    );
    for expected in [
        "namespace Halo2.Fixture.Render",
        "def shape : Shape",
        "theorem capturedUrsG_length : capturedUrsG.length = 2 ^ shape.k",
        "def vk : VerifyingKey shape Fp G",
        "def ps : ProofString shape Fp G",
        "def ch : Challenges shape.k Fp",
        "def capturedMsm : Msm shape.k Fp G",
        "theorem fingerprint_matches",
        "theorem capturedMsm_eval_eq_zero",
        "theorem assembledMsm_eval_eq_zero",
        "end Halo2.Fixture.Render",
    ] {
        assert!(
            fixture.contains(expected),
            "accepting fixture is missing `{expected}`"
        );
    }
    // The accepting fixture must not carry a rejecting theorem.
    assert!(
        !fixture.contains("_ne_zero"),
        "accepting fixture must not emit a rejecting theorem"
    );
}

#[test]
fn rejects_non_identity_capture() {
    let mut sample = Sample::new(1, 1, 2);
    sample.w_scalar = Some(sample.w_scalar.unwrap() + Scalar::ONE);
    let params = sample.params();
    assert!(
        !sample.msm(&params).eval(),
        "an invalid proof's fingerprint must be non-identity"
    );
    let err = sample
        .export("Halo2.Fixture.RenderReject", "render_reject")
        .expect_err("exporter must refuse a non-identity capture");
    assert_eq!(err, ExportError::NotIdentity);
    assert!(err.message().contains("must evaluate to the identity"));
}

#[test]
fn fixture_text_is_exact() {
    let sample = Sample::new(1, 1, 2);
    let fixture = sample.export("Halo2.Fixture.Render", "render-accept_1").unwrap();
    assert_eq!(fixture, expected(&sample, "Halo2.Fixture.Render", "render-accept_1"));
}

#[test]
fn fixture_text_of_two_proofs_is_exact() {
    let sample = Sample::new(2, 2, 1);
    let fixture = sample.export("_a.b0", "2").unwrap();
    assert_eq!(fixture, expected(&sample, "_a.b0", "2"));
}

#[test]
fn fixture_text_without_lookups_is_exact() {
    let sample = Sample::new(3, 0, 3);
    let fixture = sample.export("A", "x").unwrap();
    assert_eq!(fixture, expected(&sample, "A", "x"));
}

#[test]
fn checked_and_unchecked_export_agree() {
    let sample = Sample::new(1, 2, 2);
    let params = sample.params();
    let msm = sample.msm(&params);
    let recorder = sample.recorder();
    let key = sample.key();
    assert_eq!(key.check_capture("N", "i", K, 1, &recorder, &msm), None);
    assert_eq!(
        key.dump_vesta_lean_fixture("N", "i", K, 1, &recorder, &msm),
        sample.export("N", "i").unwrap()
    );
}

#[test]
fn names_are_refused() {
    let sample = Sample::new(1, 1, 2);
    for namespace in ["", "A..B", ".A", "A.", "1A", "A.2", "A b", "é"] {
        assert_eq!(sample.export(namespace, "x"), Err(ExportError::Namespace));
    }
    for id in ["", "a b", "a.b", "\"", "é"] {
        assert_eq!(sample.export("A.B", id), Err(ExportError::CircuitId));
    }
}

#[test]
fn invalid_msm_bases_are_refused() {
    let sample = Sample::new(1, 1, 2);
    let params = sample.params();
    let mut msm = sample.msm(&params);
    let one = Fq::from_repr(pasta_curves::Fq::ONE.to_repr()).unwrap();
    msm.other[0].1 = one;
    assert!(!msm.are_bases_valid());
    assert_eq!(
        sample.key().check_capture("A", "x", K, 1, &sample.recorder(), &msm),
        Some(ExportError::MsmBase)
    );
}

#[test]
fn missing_coefficients_are_refused() {
    let mut sample = Sample::new(1, 1, 2);
    sample.g_scalars.as_mut().unwrap().pop();
    assert_eq!(sample.refusal(), ExportError::MsmGenerators);

    // Without any terms but these the sum is the identity, and what is missing shows.
    let mut sample = Sample::new(1, 1, 2);
    sample.other = Vec::new();
    sample.g_scalars = None;
    sample.w_scalar = None;
    sample.u_scalar = None;
    assert_eq!(sample.refusal(), ExportError::NoGeneratorScalars);
    sample.g_scalars = Some(vec![Scalar::ZERO; 1 << K]);
    assert_eq!(sample.refusal(), ExportError::NoBlindingScalar);
    sample.w_scalar = Some(Scalar::ZERO);
    assert_eq!(sample.refusal(), ExportError::NoIpaScalar);
    sample.u_scalar = Some(Scalar::ZERO);
    assert_eq!(sample.refusal(), ExportError::BaseMismatch);
}

#[test]
fn wrong_sizes_are_refused() {
    let mut sample = Sample::new(1, 1, 2);
    sample.cs_degree = 1;
    assert_eq!(sample.refusal(), ExportError::Degree);
    sample.cs_degree = 2;
    assert_eq!(sample.refusal(), ExportError::ZeroChunkLength);

    let mut sample = Sample::new(1, 1, 2);
    sample.k = K + 1;
    assert_eq!(sample.refusal(), ExportError::ParamsSize);

    let mut sample = Sample::new(1, 1, 2);
    sample.g.push(multiple(999));
    sample.g_scalars.as_mut().unwrap().push(Scalar::ZERO);
    assert_eq!(sample.refusal(), ExportError::GeneratorCount);

    let mut sample = Sample::new(1, 1, 2);
    sample.n_instance = 2;
    assert_eq!(sample.refusal(), ExportError::CommonPointCount);

    let mut sample = Sample::new(1, 1, 2);
    sample.challenges.pop();
    assert_eq!(sample.refusal(), ExportError::ChallengeCount);

    let mut sample = Sample::new(1, 1, 2);
    sample.n_quotient += 1;
    assert_eq!(sample.refusal(), ExportError::ReadPointCount);
    sample.n_quotient = usize::MAX;
    assert_eq!(sample.refusal(), ExportError::ReadPointCount);

    let mut sample = Sample::new(1, 1, 2);
    sample.read_scalars.truncate(8);
    assert_eq!(sample.refusal(), ExportError::ReadScalarCount);
}

#[test]
fn disagreeing_transcripts_are_refused() {
    let mut sample = Sample::new(1, 1, 2);
    sample.read_scalars[0] += Scalar::ONE;
    assert_eq!(sample.refusal(), ExportError::EventMismatch);

    let mut sample = Sample::new(1, 1, 2);
    sample.transcript_repr += Scalar::ONE;
    assert_eq!(sample.refusal(), ExportError::TranscriptStart);

    let mut sample = Sample::new(1, 1, 2);
    sample.events.swap(0, 1);
    assert_eq!(sample.refusal(), ExportError::TranscriptStart);
}

#[test]
fn reordered_reads_are_refused() {
    // Squeezing theta one read early keeps every list as it was.
    let mut sample = Sample::new(1, 1, 2);
    let theta = sample
        .events
        .iter()
        .position(|e| matches!(e, Event::Squeeze(_)))
        .unwrap();
    sample.events.swap(theta - 1, theta);
    assert_eq!(sample.refusal(), ExportError::PointSchedule);

    // So does reading the first final scalar before the last squeeze.
    let mut sample = Sample::new(1, 1, 2);
    let n = sample.events.len();
    sample.events.swap(n - 3, n - 2);
    assert_eq!(sample.refusal(), ExportError::ScalarSchedule);
}

#[test]
fn uncommitted_columns_are_refused() {
    let mut sample = Sample::new(1, 1, 2);
    sample.fixed_queries[0].0 = 2;
    assert_eq!(sample.refusal(), ExportError::QueryColumn);
    let mut sample = Sample::new(1, 1, 2);
    sample.advice_queries[0].0 = 3;
    assert_eq!(sample.refusal(), ExportError::QueryColumn);
    let mut sample = Sample::new(1, 1, 2);
    sample.instance_queries[0].0 = 1;
    assert_eq!(sample.refusal(), ExportError::QueryColumn);
}

#[test]
fn drifted_bases_are_refused() {
    let mut sample = Sample::new(1, 1, 2);
    sample.fixed_queries[1].0 = 0;
    assert_eq!(sample.refusal(), ExportError::BaseMismatch);
}

#[test]
fn merged_commitments_are_refused() {
    // Two fixed columns with one commitment: the multi-scalar multiplication has one term less.
    let mut sample = Sample::new(1, 1, 2);
    let (kept, merged) = (sample.fixed[0], sample.fixed[1]);
    sample.fixed[1] = kept;
    let gone = sample.other.iter().position(|t| t.1 == merged).unwrap();
    let coefficient = sample.other.remove(gone).0;
    // The generator of the blinding factor stands in for the lost term.
    sample.w = (sample.w * sample.w_scalar.unwrap() + merged * coefficient).to_affine();
    sample.w_scalar = Some(Scalar::ONE);
    let slots = sample.other.len() + 1;
    let err = sample.refusal();
    assert_eq!(err, ExportError::Collapsed { slots, terms: slots - 1 });
    assert!(err.message().starts_with(&format!(
        "captured MSM collapsed {} protocol commitment slots into {} terms",
        slots,
        slots - 1
    )));
}

#[test]
fn dropped_identities_are_refused() {
    let mut sample = Sample::new(1, 1, 2);
    let dropped = sample.fixed[1];
    sample.fixed[1] = Point::identity();
    let gone = sample.other.iter().position(|t| t.1 == dropped).unwrap();
    let coefficient = sample.other.remove(gone).0;
    sample.w = (sample.w * sample.w_scalar.unwrap() + dropped * coefficient).to_affine();
    sample.w_scalar = Some(Scalar::ONE);
    let slots = sample.other.len() + 1;
    assert_eq!(sample.refusal(), ExportError::Collapsed { slots, terms: slots - 1 });
    // A captured identity is no base of the protocol.
    sample.other.push((Scalar::ONE, Point::identity()));
    assert_eq!(sample.refusal(), ExportError::BaseMismatch);
}

#[test]
fn repeated_bases_are_refused() {
    // Two fixed columns with one commitment, and a term for each of them.
    let mut sample = Sample::new(1, 1, 2);
    let (kept, merged) = (sample.fixed[0], sample.fixed[1]);
    sample.fixed[1] = kept;
    let second = sample.other.iter().position(|t| t.1 == merged).unwrap();
    let coefficient = sample.other[second].0;
    sample.other[second].1 = kept;
    // The blinding generator makes up for the difference.
    sample.w = (sample.w * sample.w_scalar.unwrap() + (merged * coefficient - kept * coefficient))
        .to_affine();
    sample.w_scalar = Some(Scalar::ONE);
    let params = sample.params();
    let msm = sample.msm(&params);
    assert!(msm.eval());
    assert!(!msm.are_bases_distinct());
    let err = sample.refusal();
    assert_eq!(err, ExportError::RepeatedBase);
    assert_eq!(err.message(), "captured MSM must have one term for each base");
    assert!(Sample::new(1, 1, 2).msm(&params).are_bases_distinct());
}

#[test]
fn circuits_that_cannot_be_rendered_are_refused() {
    let sample = Sample::new(1, 1, 2);
    let params = sample.params();
    let msm = sample.msm(&params);
    let recorder = sample.recorder();

    let mut key = sample.key();
    key.cs.gates[1].polynomials[0] =
        Expression::Negated(Box::new(Expression::Selector(0)));
    assert_eq!(
        key.check_capture("A", "x", K, 1, &recorder, &msm),
        Some(ExportError::GateSelector)
    );

    let mut key = sample.key();
    key.cs.permutation_columns[0] = Column { index: 1, column_type: Any::Advice };
    assert_eq!(
        key.check_capture("A", "x", K, 1, &recorder, &msm),
        Some(ExportError::PermutationQuery)
    );

    let mut key = sample.key();
    key.cs.lookups[0].table_expressions.push(Expression::Selector(3));
    assert_eq!(
        key.check_capture("A", "x", K, 1, &recorder, &msm),
        Some(ExportError::LookupSelector)
    );
}

#[test]
fn fixtures_open_and_close_their_namespace() {
    let fixture = Sample::new(1, 1, 2).export("Halo2.Fixture.Render", "render").unwrap();
    assert!(fixture.starts_with(
        "-- Auto-generated by halo2 `dump_vesta_lean_fixture`. Do not edit by hand.\n\
         import Zcash.Snark\n\nset_option maxRecDepth 1000000\n\nnamespace Halo2.Fixture.Render\n\n"
    ));
    assert!(fixture.ends_with(
        "  exact capturedMsm_eval_eq_zero\n\nend Halo2.Fixture.Render\n"
    ));
}

#[test]
fn transcript_and_msm_add_no_points() {
    let sample = Sample::new(2, 1, 2);
    let fixture = sample.export("A", "x").unwrap();
    let coordinates = fixture
        .lines()
        .find(|l| l.starts_with("def capturedPointCoordinates : "))
        .unwrap();
    let listed = coordinates.matches("((mkFq ").count();
    assert_eq!(
        listed,
        sample.g.len()
            + 2
            + sample.fixed.len()
            + sample.common.len()
            + sample.permutation_commitments.len()
            + sample.read_points.len()
    );
    // Every reference is to a listed point.
    for reference in fixture.split("capturedPoint ").skip(1) {
        let digits: String = reference.chars().take_while(|c| c.is_ascii_digit()).collect();
        if let Ok(i) = digits.parse::<usize>() {
            assert!(i < listed);
        }
    }
}

#[test]
fn schedule_has_an_entry_for_each_challenge() {
    let sample = Sample::new(1, 1, 2);
    let fixture = sample.export("A", "x").unwrap();
    let at = fixture.find("def capturedScheduleEntries").unwrap();
    let entries = fixture[at..].lines().nth(1).unwrap();
    assert_eq!(entries.matches("([").count(), 11 + K as usize);
    let mut rest = entries;
    for c in &sample.challenges {
        let closing = format!("], {})", fp(*c));
        let end = rest.find(&closing).expect("the challenges come in order");
        rest = &rest[end + closing.len()..];
    }
    assert_eq!(rest, "]");
}

#[test]
fn shared_points_are_listed_once() {
    // The blinding generator is also the commitment of an unqueried fixed column.
    let mut sample = Sample::new(1, 1, 2);
    sample.fixed.push(sample.w);
    let fixture = sample.export("A", "x").unwrap();
    assert_eq!(fixture, expected(&sample, "A", "x"));
}
