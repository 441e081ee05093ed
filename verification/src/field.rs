//! The two Pasta prime fields as the fixtures see them: canonical little-endian representations,
//! and the `mkFp` / `mkFq` calls that rebuild an element from four 64-bit limbs.

use ff::PrimeField;
use vstd::arithmetic::power::*;
use vstd::prelude::*;
use vstd::string::*;

use crate::text;

verus! {

/// The order of the Vesta group, which is the modulus of its scalar field.
pub open spec fn scalar_modulus() -> nat {
    0x40000000000000000000000000000000224698fc094cf91b992d30ed00000001nat
}

/// The modulus of the field that Vesta is defined over.
pub open spec fn base_modulus() -> nat {
    0x40000000000000000000000000000000224698fc0994a8dd8c46eb2100000001nat
}

/// The number that a little-endian byte string denotes.
pub open spec fn le_value(bytes: Seq<u8>) -> nat
    decreases bytes.len(),
{
    if bytes.len() == 0 {
        0
    } else {
        bytes[0] as nat + 256 * le_value(bytes.drop_first())
    }
}

/// The little-endian byte string of length `n` of a number, cut off at its end.
pub open spec fn le_bytes(v: nat, n: nat) -> Seq<u8>
    decreases n,
{
    if n == 0 {
        Seq::empty()
    } else {
        seq![(v % 256) as u8] + le_bytes(v / 256, (n - 1) as nat)
    }
}

/// Writing out the number that a byte string denotes gives the byte string back.
pub proof fn bytes_read_back(bytes: Seq<u8>)
    ensures
        le_bytes(le_value(bytes), bytes.len()) == bytes,
    decreases bytes.len(),
{
    if bytes.len() > 0 {
        let rest = bytes.drop_first();
        bytes_read_back(rest);
        assert(le_value(bytes) % 256 == bytes[0] as nat && le_value(bytes) / 256 == le_value(rest));
        assert(seq![bytes[0]] + rest =~= bytes);
    } else {
        assert(bytes =~= Seq::empty());
    }
}

/// One more than the largest 64-bit limb.
pub open spec fn limb_base() -> nat {
    0x1_0000_0000_0000_0000nat
}

/// The 64-bit limb of `v` at position `i`, the least significant one at position zero.
pub open spec fn limb(v: nat, i: nat) -> nat
    decreases i,
{
    if i == 0 {
        v % limb_base()
    } else {
        limb(v / limb_base(), (i - 1) as nat)
    }
}

/// A Lean constructor applied to the four limbs of `v`.
pub open spec fn field_text(constructor: Seq<char>, v: nat) -> Seq<char> {
    "("@ + constructor + " "@ + text::decimal(limb(v, 0)) + " "@ + text::decimal(limb(v, 1)) + " "@
        + text::decimal(limb(v, 2)) + " "@ + text::decimal(limb(v, 3)) + ")"@
}

/// A scalar as a Lean `mkFp` call.
pub open spec fn fp_text(x: Fp) -> Seq<char> {
    field_text("mkFp"@, x@)
}

/// A base field element as a Lean `mkFq` call.
pub open spec fn fq_text(x: Fq) -> Seq<char> {
    field_text("mkFq"@, x@)
}

/// The Lean literals of a list of scalars.
pub open spec fn fp_texts(xs: Seq<Fp>) -> Seq<Seq<char>> {
    xs.map_values(|x: Fp| fp_text(x))
}

/// The sum that `mkFp` and `mkFq` form from their four arguments gives back the number.
pub proof fn limbs_read_back(v: nat)
    requires
        v < limb_base() * limb_base() * limb_base() * limb_base(),
    ensures
        limb(v, 0) + limb(v, 1) * limb_base() + limb(v, 2) * (limb_base() * limb_base()) + limb(
            v,
            3,
        ) * (limb_base() * limb_base() * limb_base()) == v,
        forall|i: nat| i < 4 ==> #[trigger] limb(v, i) < limb_base(),
{
    reveal_with_fuel(limb, 5);
    let m = limb_base();
    let (q1, q2, q3) = (v / m, v / m / m, v / m / m / m);
    let (l0, l1, l2) = (v % m, q1 % m, q2 % m);
    assert(v == l0 + m * q1 && q1 == l1 + m * q2 && q2 == l2 + m * q3);
    assert(q3 < m) by (nonlinear_arith)
        requires
            v < m * m * m * m,
            v == l0 + m * q1,
            q1 == l1 + m * q2,
            q2 == l2 + m * q3,
            m > 0,
    ;
    assert(l0 + l1 * m + l2 * (m * m) + q3 * (m * m * m) == l0 + m * (l1 + m * (l2 + m * q3)))
        by (nonlinear_arith);
    assert(limb(v, 3) == q3);
    assert forall|i: nat| i < 4 implies #[trigger] limb(v, i) < m by {
        assert(i == 0 || i == 1 || i == 2 || i == 3);
    }
}

/// A byte has its own value, and each byte counts 256 times what the one before it does.
pub proof fn value_is_positional(a: Seq<u8>, b: Seq<u8>)
    ensures
        le_value(Seq::empty()) == 0,
        a.len() == 1 ==> le_value(a) == a[0],
        le_value(a + b) == le_value(a) + pow(256, a.len()) * le_value(b),
    decreases a.len(),
{
    reveal(pow);
    if a.len() > 0 {
        let rest = a.drop_first();
        value_is_positional(rest, b);
        assert((a + b).drop_first() =~= rest + b);
        let (p, v) = (pow(256, rest.len()), le_value(b) as int);
        assert(256 * (p * v) == (256 * p) * v) by (nonlinear_arith);
        assert(rest.len() == (a.len() - 1) as nat);
        assert(pow(256, a.len()) == 256 * p);
        if a.len() == 1 {
            assert(rest =~= Seq::empty());
        }
    } else {
        assert(a + b =~= b);
        assert(pow(256, 0) == 1);
    }
}

/// The literal of a field element names the four digits of its number to the base `2^64`, the
/// least significant one first.
pub proof fn literal_is_four_limbs(constructor: Seq<char>, v: nat, a: nat, b: nat, c: nat, d: nat)
    requires
        a < 0x1_0000_0000_0000_0000,
        b < 0x1_0000_0000_0000_0000,
        c < 0x1_0000_0000_0000_0000,
        d < 0x1_0000_0000_0000_0000,
        v == a + 0x1_0000_0000_0000_0000 * (b + 0x1_0000_0000_0000_0000 * (c
            + 0x1_0000_0000_0000_0000 * d)),
    ensures
        field_text(constructor, v) == "("@ + constructor + " "@ + text::decimal(a) + " "@
            + text::decimal(b) + " "@ + text::decimal(c) + " "@ + text::decimal(d) + ")"@,
{
    reveal_with_fuel(limb, 5);
    let m = limb_base();
    let (r1, r2) = (b + m * (c + m * d), c + m * d);
    assert(v % m == a && v / m == r1);
    assert(r1 % m == b && r1 / m == r2);
    assert(r2 % m == c && r2 / m == d);
    assert(d % m == d);
    assert(limb(v, 0) == a);
    assert(limb(v, 1) == b);
    assert(limb(v, 2) == c);
    assert(limb(v, 3) == d);
}

/// Scalars are written with `mkFp`, base field elements with `mkFq`, and a list one by one.
pub proof fn literals_name_their_field(x: Fp, y: Fq, xs: Seq<Fp>, i: int)
    requires
        0 <= i < xs.len(),
    ensures
        fp_text(x) == field_text("mkFp"@, x@),
        fq_text(y) == field_text("mkFq"@, y@),
        fp_texts(xs).len() == xs.len(),
        fp_texts(xs)[i] == field_text("mkFp"@, xs[i]@),
{
}

/// Four numerals, separated by blanks, and what follows them.
spec fn numerals_text(a: nat, b: nat, c: nat, d: nat, end: Seq<char>) -> Seq<char> {
    text::decimal(a) + (" "@ + (text::decimal(b) + (" "@ + (text::decimal(c) + (" "@ + (
    text::decimal(d) + end))))))
}

proof fn lemma_parts_regroup(
    h: Seq<char>,
    a: Seq<char>,
    b: Seq<char>,
    c: Seq<char>,
    d: Seq<char>,
    blank: Seq<char>,
    end: Seq<char>,
    rest: Seq<char>,
)
    ensures
        (h + a + blank + b + blank + c + blank + d + end + rest).skip(h.len() as int) == a + (blank
            + (b + (blank + (c + (blank + (d + (end + rest))))))),
{
}

proof fn lemma_after_blank(a: Seq<char>, b: Seq<char>)
    requires
        " "@ + a == " "@ + b,
    ensures
        a == b,
{
    let n = " "@.len() as int;
    assert((" "@ + a).skip(n) =~= a);
    assert((" "@ + b).skip(n) =~= b);
}

proof fn lemma_numerals_read_back(
    a: nat,
    b: nat,
    c: nat,
    d: nat,
    e: Seq<char>,
    p: nat,
    q: nat,
    r: nat,
    s: nat,
    t: Seq<char>,
)
    requires
        numerals_text(a, b, c, d, e) == numerals_text(p, q, r, s, t),
        e.len() > 0 && !('0' <= e[0] <= '9'),
        t.len() > 0 && !('0' <= t[0] <= '9'),
    ensures
        a == p,
        b == q,
        c == r,
        d == s,
        e == t,
{
    let (d3, s3) = (text::decimal(d) + e, text::decimal(s) + t);
    let (c2, r2) = (text::decimal(c) + (" "@ + d3), text::decimal(r) + (" "@ + s3));
    let (b1, q1) = (text::decimal(b) + (" "@ + c2), text::decimal(q) + (" "@ + r2));
    assert(" "@.len() == 1 && " "@[0] == ' ') by {
        reveal_strlit(" ");
    }
    text::numeral_delimits(a, p, " "@ + b1, " "@ + q1);
    lemma_after_blank(b1, q1);
    text::numeral_delimits(b, q, " "@ + c2, " "@ + r2);
    lemma_after_blank(c2, r2);
    text::numeral_delimits(c, r, " "@ + d3, " "@ + s3);
    lemma_after_blank(d3, s3);
    text::numeral_delimits(d, s, e, t);
}

/// A field literal ends with its bracket: two texts that start with literals of one constructor are
/// the same only if the literals stand for one number and the rests are the same.
pub proof fn literal_delimits(constructor: Seq<char>, v: nat, w: nat, x: Seq<char>, y: Seq<char>)
    requires
        v < limb_base() * limb_base() * limb_base() * limb_base(),
        w < limb_base() * limb_base() * limb_base() * limb_base(),
        field_text(constructor, v) + x == field_text(constructor, w) + y,
    ensures
        v == w,
        x == y,
{
    let head = "("@ + constructor + " "@;
    let (v0, v1, v2, v3) = (limb(v, 0), limb(v, 1), limb(v, 2), limb(v, 3));
    let (w0, w1, w2, w3) = (limb(w, 0), limb(w, 1), limb(w, 2), limb(w, 3));
    lemma_parts_regroup(
        head,
        text::decimal(v0),
        text::decimal(v1),
        text::decimal(v2),
        text::decimal(v3),
        " "@,
        ")"@,
        x,
    );
    lemma_parts_regroup(
        head,
        text::decimal(w0),
        text::decimal(w1),
        text::decimal(w2),
        text::decimal(w3),
        " "@,
        ")"@,
        y,
    );
    assert(")"@.len() == 1 && ")"@[0] == ')') by {
        reveal_strlit(")");
    }
    lemma_numerals_read_back(v0, v1, v2, v3, ")"@ + x, w0, w1, w2, w3, ")"@ + y);
    assert((")"@ + x).skip(1) =~= x);
    assert((")"@ + y).skip(1) =~= y);
    limbs_read_back(v);
    limbs_read_back(w);
}

/// Distinct numbers have distinct field literals.
pub proof fn literals_are_distinct(constructor: Seq<char>, v: nat, w: nat)
    requires
        v < limb_base() * limb_base() * limb_base() * limb_base(),
        w < limb_base() * limb_base() * limb_base() * limb_base(),
        v != w,
    ensures
        field_text(constructor, v) != field_text(constructor, w),
{
    if field_text(constructor, v) == field_text(constructor, w) {
        literal_delimits(constructor, v, w, Seq::empty(), Seq::empty());
    }
}

/// A byte string of 32 bytes denotes a number that its four limbs hold completely.
pub proof fn representation_fits_four_limbs(bytes: Seq<u8>)
    requires
        bytes.len() <= 32,
    ensures
        le_value(bytes) < limb_base() * limb_base() * limb_base() * limb_base(),
{
    lemma_le_value_is_span(bytes, 32);
    lemma_span_bound(bytes, 0, 32);
    lemma_span_splits(bytes, 0, 8, 24);
    lemma_span_splits(bytes, 8, 8, 16);
    lemma_span_splits(bytes, 16, 8, 8);
    lemma_span_bound(bytes, 0, 8);
    lemma_span_bound(bytes, 8, 8);
    lemma_span_bound(bytes, 16, 8);
    lemma_span_bound(bytes, 24, 8);
    lemma_two_to_the_64();
    let m = limb_base();
    let (l0, l1, l2, l3) = (
        span(bytes, 0, 8),
        span(bytes, 8, 8),
        span(bytes, 16, 8),
        span(bytes, 24, 8),
    );
    assert(l0 + m * (l1 + m * (l2 + m * l3)) < m * m * m * m) by (nonlinear_arith)
        requires
            l0 < m,
            l1 < m,
            l2 < m,
            l3 < m,
    ;
}

/// Different byte strings of one length denote different numbers.
pub proof fn representation_is_unique(a: Seq<u8>, b: Seq<u8>)
    requires
        a.len() == b.len(),
        le_value(a) == le_value(b),
    ensures
        a == b,
    decreases a.len(),
{
    if a.len() > 0 {
        representation_is_unique(a.drop_first(), b.drop_first());
        assert(a =~= seq![a[0]] + a.drop_first());
        assert(b =~= seq![b[0]] + b.drop_first());
    } else {
        assert(a =~= b);
    }
}

/// The byte at a position, zero past the end.
spec fn byte_or_zero(bytes: Seq<u8>, i: int) -> nat {
    if 0 <= i < bytes.len() {
        bytes[i] as nat
    } else {
        0
    }
}

/// The number that `n` bytes from `lo` on denote, with zeroes past the end.
spec fn span(bytes: Seq<u8>, lo: int, n: nat) -> nat
    decreases n,
{
    if n == 0 {
        0
    } else {
        byte_or_zero(bytes, lo) + 256 * span(bytes, lo + 1, (n - 1) as nat)
    }
}

spec fn power_of_256(n: nat) -> nat
    decreases n,
{
    if n == 0 {
        1
    } else {
        256 * power_of_256((n - 1) as nat)
    }
}

proof fn lemma_two_to_the_64()
    ensures
        power_of_256(8) == limb_base(),
{
    reveal_with_fuel(power_of_256, 9);
}

proof fn lemma_span_bound(bytes: Seq<u8>, lo: int, n: nat)
    ensures
        span(bytes, lo, n) < power_of_256(n),
    decreases n,
{
    if n > 0 {
        lemma_span_bound(bytes, lo + 1, (n - 1) as nat);
    }
}

proof fn lemma_span_splits(bytes: Seq<u8>, lo: int, a: nat, b: nat)
    ensures
        span(bytes, lo, a + b) == span(bytes, lo, a) + power_of_256(a) * span(bytes, lo + a, b),
    decreases a,
{
    if a > 0 {
        lemma_span_splits(bytes, lo + 1, (a - 1) as nat, b);
        let p = power_of_256((a - 1) as nat);
        let s = span(bytes, lo + a, b);
        assert(span(bytes, lo + 1 + (a - 1) as nat, b) == s);
        assert((a + b - 1) as nat == (a - 1) as nat + b);
        let whole = power_of_256(a);
        assert(whole * s == 256 * (p * s)) by (nonlinear_arith)
            requires
                whole == 256 * p,
        ;
    } else {
        let whole = power_of_256(0);
        let s = span(bytes, lo, b);
        assert(whole * s == s) by (nonlinear_arith)
            requires
                whole == 1,
        ;
    }
}

proof fn lemma_span_past_end(bytes: Seq<u8>, lo: int, n: nat)
    requires
        lo >= bytes.len(),
    ensures
        span(bytes, lo, n) == 0,
    decreases n,
{
    if n > 0 {
        lemma_span_past_end(bytes, lo + 1, (n - 1) as nat);
    }
}

proof fn lemma_span_shift(bytes: Seq<u8>, lo: int, n: nat)
    requires
        bytes.len() > 0,
        lo >= 0,
    ensures
        span(bytes, lo + 1, n) == span(bytes.drop_first(), lo, n),
    decreases n,
{
    if n > 0 {
        lemma_span_shift(bytes, lo + 1, (n - 1) as nat);
    }
}

proof fn lemma_le_value_is_span(bytes: Seq<u8>, n: nat)
    requires
        bytes.len() <= n,
    ensures
        le_value(bytes) == span(bytes, 0, n),
    decreases n,
{
    if bytes.len() == 0 {
        lemma_span_past_end(bytes, 0, n);
    } else {
        lemma_le_value_is_span(bytes.drop_first(), (n - 1) as nat);
        lemma_span_shift(bytes, 0, (n - 1) as nat);
    }
}

/// The limb at a position is the number that the eight bytes from there on denote.
proof fn lemma_limb_is_span(bytes: Seq<u8>, i: nat)
    requires
        bytes.len() <= 32,
        i < 4,
    ensures
        limb(le_value(bytes), i) == span(bytes, 8 * i as int, 8),
{
    reveal_with_fuel(limb, 5);
    lemma_two_to_the_64();
    lemma_le_value_is_span(bytes, 32);
    lemma_span_splits(bytes, 0, 8, 24);
    lemma_span_splits(bytes, 8, 8, 16);
    lemma_span_splits(bytes, 16, 8, 8);
    lemma_span_bound(bytes, 0, 8);
    lemma_span_bound(bytes, 8, 8);
    lemma_span_bound(bytes, 16, 8);
    lemma_span_bound(bytes, 24, 8);
    let m = limb_base();
    let (l0, l1, l2, l3) = (
        span(bytes, 0, 8),
        span(bytes, 8, 8),
        span(bytes, 16, 8),
        span(bytes, 24, 8),
    );
    let v = le_value(bytes);
    assert(v == l0 + m * (l1 + m * (l2 + m * l3)));
    assert(v % m == l0 && v / m == l1 + m * (l2 + m * l3));
    assert(v / m % m == l1 && v / m / m == l2 + m * l3);
    assert(v / m / m % m == l2 && v / m / m / m == l3);
    assert(i == 0 || i == 1 || i == 2 || i == 3);
}

/// One 64-bit limb of a little-endian representation.
fn limb_of(bytes: &[u8], i: usize) -> (v: u64)
    requires
        bytes@.len() <= 32,
        i < 4,
    ensures
        v == limb(le_value(bytes@), i as nat),
{
    let mut v: u64 = 0;
    let mut j: usize = 8;
    while j > 0
        invariant
            i < 4,
            j <= 8,
            v == span(bytes@, 8 * i + j, (8 - j) as nat),
        decreases j,
    {
        j = j - 1;
        let at: usize = i * 8 + j;
        let byte: u64 = if at < bytes.len() {
            bytes[at] as u64
        } else {
            0
        };
        proof {
            lemma_span_bound(bytes@, 8 * i + j, (8 - j) as nat);
            lemma_span_splits(bytes@, 8 * i + j, 1, (7 - j) as nat);
            lemma_span_splits(bytes@, 8 * i, j as nat, (8 - j) as nat);
            lemma_span_bound(bytes@, 8 * i, 8);
            lemma_two_to_the_64();
            lemma_power_grows((8 - j) as nat, 8);
        }
        v = v * 256 + byte;
    }
    proof {
        lemma_limb_is_span(bytes@, i as nat);
    }
    v
}

proof fn lemma_power_grows(a: nat, b: nat)
    requires
        a <= b,
    ensures
        power_of_256(a) <= power_of_256(b),
    decreases b,
{
    if a < b {
        lemma_power_grows(a, (b - 1) as nat);
    }
}

/// A field element as a Lean constructor call with four little-endian `u64` limbs.
///
/// A representation wider than the four limbs would lose bytes, so it is left out.
pub fn field(constructor: &str, repr: &[u8]) -> (s: String)
    requires
        repr@.len() <= 32,
    ensures
        s@ == field_text(constructor@, le_value(repr@)),
{
    let mut s = "(".to_owned();
    s.append(constructor);
    s.append(" ");
    s.append(text::number(limb_of(repr, 0)).as_str());
    s.append(" ");
    s.append(text::number(limb_of(repr, 1)).as_str());
    s.append(" ");
    s.append(text::number(limb_of(repr, 2)).as_str());
    s.append(" ");
    s.append(text::number(limb_of(repr, 3)).as_str());
    s.append(")");
    s
}

/// Decodes a scalar with `ff::PrimeField::from_repr` for `pasta_curves::Fp`, and encodes it again
/// with `to_repr`.
///
/// Claimed: the decoding succeeds if and only if the little-endian number is below the modulus,
/// and the encoding of what was decoded is the representation itself.
#[verifier::external_body]
fn canonical_scalar(repr: [u8; 32]) -> (r: Option<[u8; 32]>)
    ensures
        r == (if le_value(repr@) < scalar_modulus() {
            Some(repr)
        } else {
            None
        }),
{
    Option::<pasta_curves::Fp>::from(pasta_curves::Fp::from_repr(repr)).map(|x| x.to_repr())
}

/// Decodes a base field element with `ff::PrimeField::from_repr` for `pasta_curves::Fq`, and
/// encodes it again with `to_repr`.
///
/// Claimed: the decoding succeeds if and only if the little-endian number is below the modulus,
/// and the encoding of what was decoded is the representation itself.
#[verifier::external_body]
fn canonical_base(repr: [u8; 32]) -> (r: Option<[u8; 32]>)
    ensures
        r == (if le_value(repr@) < base_modulus() {
            Some(repr)
        } else {
            None
        }),
{
    Option::<pasta_curves::Fq>::from(pasta_curves::Fq::from_repr(repr)).map(|x| x.to_repr())
}

/// Reads the constant `ff::PrimeField::DELTA` of `pasta_curves::Fp`.
///
/// Claimed: its value, the generator of the odd-order multiplicative subgroup that the crate
/// writes down as four limbs.
#[verifier::external_body]
fn delta_repr() -> (r: [u8; 32])
    ensures
        le_value(r@) == delta_value(),
{
    pasta_curves::Fp::DELTA.to_repr()
}

/// An element of the Vesta scalar field, in its canonical representation.
///
/// Its view is the number below the modulus that it stands for.
#[derive(Clone, Copy, Debug, PartialEq, Eq)]
pub struct Fp {
    repr: [u8; 32],
}

/// An element of the Vesta base field, in its canonical representation.
///
/// Its view is the number below the modulus that it stands for.
#[derive(Clone, Copy, Debug, PartialEq, Eq)]
pub struct Fq {
    repr: [u8; 32],
}

impl View for Fp {
    type V = nat;

    closed spec fn view(&self) -> nat {
        le_value(self.repr@)
    }
}

impl View for Fq {
    type V = nat;

    closed spec fn view(&self) -> nat {
        le_value(self.repr@)
    }
}

/// The value of [`Fp::delta`].
pub open spec fn delta_value() -> nat {
    0x0a757d0f0006ab6cbd455b7112a5049df5e4f3f13eee56366a6ccd20dd7b9ba2nat
}

impl Fp {
    #[verifier::type_invariant]
    closed spec fn canonical(self) -> bool {
        le_value(self.repr@) < scalar_modulus()
    }

    /// The scalar with a given little-endian representation, if that is canonical.
    pub fn from_repr(repr: [u8; 32]) -> (r: Option<Fp>)
        ensures
            r is Some <==> le_value(repr@) < scalar_modulus(),
            r matches Some(x) ==> x@ == le_value(repr@),
    {
        match canonical_scalar(repr) {
            Some(repr) => Some(Fp { repr }),
            None => None,
        }
    }

    /// The canonical little-endian representation.
    pub fn to_repr(&self) -> (repr: [u8; 32])
        ensures
            repr@ == le_bytes(self@, 32),
            le_value(repr@) == self@,
            self@ < scalar_modulus(),
    {
        proof {
            use_type_invariant(self);
            bytes_read_back(self.repr@);
        }
        self.repr
    }

    /// Whether two scalars are the same.
    pub fn equals(&self, other: &Fp) -> (r: bool)
        ensures
            r == (*self == *other),
            r == (self@ == other@),
    {
        proof {
            same_scalar(*self, *other);
        }
        same_bytes(&self.repr, &other.repr)
    }

    /// The generator of the odd-order multiplicative subgroup.
    pub fn delta() -> (x: Fp)
        ensures
            x@ == delta_value(),
    {
        Fp { repr: delta_repr() }
    }
}

impl Fq {
    #[verifier::type_invariant]
    closed spec fn canonical(self) -> bool {
        le_value(self.repr@) < base_modulus()
    }

    /// The element with a given little-endian representation, if that is canonical.
    pub fn from_repr(repr: [u8; 32]) -> (r: Option<Fq>)
        ensures
            r is Some <==> le_value(repr@) < base_modulus(),
            r matches Some(x) ==> x@ == le_value(repr@),
    {
        match canonical_base(repr) {
            Some(repr) => Some(Fq { repr }),
            None => None,
        }
    }

    /// The canonical little-endian representation.
    pub fn to_repr(&self) -> (repr: [u8; 32])
        ensures
            repr@ == le_bytes(self@, 32),
            le_value(repr@) == self@,
            self@ < base_modulus(),
    {
        proof {
            use_type_invariant(self);
            bytes_read_back(self.repr@);
        }
        self.repr
    }
}

/// Scalars with one value are one scalar.
pub proof fn same_scalar(a: Fp, b: Fp)
    ensures
        a == b <==> a@ == b@,
{
    if a@ == b@ {
        representation_is_unique(a.repr@, b.repr@);
        assert(a.repr =~= b.repr) by {
            assert forall|i: int| 0 <= i < 32 implies a.repr[i] == b.repr[i] by {
                assert(a.repr@[i] == b.repr@[i]);
            }
        }
    }
}

/// Base field elements with one value are one element.
pub proof fn same_base_element(a: Fq, b: Fq)
    ensures
        a == b <==> a@ == b@,
{
    if a@ == b@ {
        representation_is_unique(a.repr@, b.repr@);
        assert(a.repr =~= b.repr) by {
            assert forall|i: int| 0 <= i < 32 implies a.repr[i] == b.repr[i] by {
                assert(a.repr@[i] == b.repr@[i]);
            }
        }
    }
}

/// The number of a scalar fits four limbs.
pub proof fn scalar_fits(a: Fp)
    ensures
        a@ < limb_base() * limb_base() * limb_base() * limb_base(),
{
    representation_fits_four_limbs(a.repr@);
}

/// Distinct scalars have distinct literals, and a literal ends with its bracket.
pub proof fn scalar_literal_delimits(a: Fp, b: Fp, x: Seq<char>, y: Seq<char>)
    requires
        fp_text(a) + x == fp_text(b) + y,
    ensures
        a == b,
        x == y,
{
    scalar_fits(a);
    scalar_fits(b);
    same_scalar(a, b);
    literal_delimits("mkFp"@, a@, b@, x, y);
}

/// The representation of an element has 32 bytes, so it can be written out from the value.
pub proof fn base_element_fits(a: Fq)
    ensures
        le_bytes(a@, 32).len() == 32,
        le_value(le_bytes(a@, 32)) == a@,
{
    bytes_read_back(a.repr@);
}

/// Whether two byte strings are the same.
pub fn same_bytes(a: &[u8], b: &[u8]) -> (r: bool)
    ensures
        r == (a@ == b@),
{
    if a.len() != b.len() {
        return false;
    }
    let mut i: usize = 0;
    while i < a.len()
        invariant
            a@.len() == b@.len(),
            i <= a@.len(),
            forall|j: int| 0 <= j < i ==> a@[j] == b@[j],
        decreases a@.len() - i,
    {
        if a[i] != b[i] {
            return false;
        }
        i = i + 1;
    }
    assert(a@ =~= b@);
    true
}

/// A scalar field element as a Lean `mkFp` call (four little-endian `u64` limbs).
pub fn fp(x: Fp) -> (s: String)
    ensures
        s@ == fp_text(x),
{
    let repr = x.to_repr();
    field("mkFp", repr.as_slice())
}

/// A Vesta base-field element as a Lean `mkFq` call (four little-endian `u64` limbs).
pub fn fq(x: Fq) -> (s: String)
    ensures
        s@ == fq_text(x),
{
    let repr = x.to_repr();
    field("mkFq", repr.as_slice())
}

/// The Lean literals of a list of scalars, separated by commas.
pub fn join_fps(xs: &[Fp]) -> (s: String)
    ensures
        s@ == text::comma_separated(fp_texts(xs@)),
{
    let mut parts: Vec<String> = Vec::new();
    let mut i: usize = 0;
    while i < xs.len()
        invariant
            i <= xs@.len(),
            text::contents(parts@) =~= fp_texts(xs@).take(i as int),
        decreases xs@.len() - i,
    {
        let ghost before = text::contents(parts@);
        parts.push(fp(xs[i]));
        i = i + 1;
        assert(text::contents(parts@) =~= before.push(fp_text(xs@[i - 1])));
    }
    assert(fp_texts(xs@).take(xs@.len() as int) =~= fp_texts(xs@));
    text::join(parts.as_slice())
}

} // verus!
