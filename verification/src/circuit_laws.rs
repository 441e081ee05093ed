//! What the Lean rendering of a circuit keeps of the circuit.

use vstd::prelude::*;
use vstd::string::*;

use crate::circuit;
use crate::circuit::{Any, ConstraintSystem, Expression, Gate, LookupArgument, Query};
use crate::field;
use crate::field::Fp;
use crate::text;

verus! {

/// The text of an expression is put together from its own constructor and the texts of its parts,
/// in the order of the parts.
pub proof fn expressions_are_composed(a: Box<Expression>, b: Box<Expression>, c: Fp, i: usize)
    ensures
        circuit::expr_text(Expression::Constant(c)) == "(.constant "@ + field::fp_text(c) + ")"@,
        circuit::expr_text(Expression::Fixed(i)) == "(.fixed "@ + text::decimal(i as nat) + ")"@,
        circuit::expr_text(Expression::Advice(i)) == "(.advice "@ + text::decimal(i as nat) + ")"@,
        circuit::expr_text(Expression::Instance(i)) == "(.instance "@ + text::decimal(i as nat)
            + ")"@,
        circuit::expr_text(Expression::Negated(a)) == "(.negated "@ + circuit::expr_text(*a)
            + ")"@,
        circuit::expr_text(Expression::Sum(a, b)) == "(.sum "@ + circuit::expr_text(*a) + " "@
            + circuit::expr_text(*b) + ")"@,
        circuit::expr_text(Expression::Product(a, b)) == "(.product "@ + circuit::expr_text(*a)
            + " "@ + circuit::expr_text(*b) + ")"@,
        circuit::expr_text(Expression::Scaled(a, c)) == "(.scaled "@ + circuit::expr_text(*a)
            + " "@ + field::fp_text(c) + ")"@,
{
}

/// An expression is free of virtual selectors if and only if all its parts are; a selector itself
/// is not, and a constant or a query is.
pub proof fn selectors_are_found(a: Box<Expression>, b: Box<Expression>, c: Fp, i: usize)
    ensures
        !circuit::selector_free(Expression::Selector(i)),
        circuit::selector_free(Expression::Constant(c)),
        circuit::selector_free(Expression::Fixed(i)),
        circuit::selector_free(Expression::Advice(i)),
        circuit::selector_free(Expression::Instance(i)),
        circuit::selector_free(Expression::Negated(a)) <==> circuit::selector_free(*a),
        circuit::selector_free(Expression::Scaled(a, c)) <==> circuit::selector_free(*a),
        circuit::selector_free(Expression::Sum(a, b)) <==> circuit::selector_free(*a)
            && circuit::selector_free(*b),
        circuit::selector_free(Expression::Product(a, b)) <==> circuit::selector_free(*a)
            && circuit::selector_free(*b),
{
    reveal_with_fuel(circuit::selector_free, 2);
}

spec fn third_char(e: Expression) -> char {
    match e {
        Expression::Constant(_) => 'c',
        Expression::Selector(_) => ' ',
        Expression::Fixed(_) => 'f',
        Expression::Advice(_) => 'a',
        Expression::Instance(_) => 'i',
        Expression::Negated(_) => 'n',
        Expression::Sum(_, _) => 's',
        Expression::Product(_, _) => 'p',
        Expression::Scaled(_, _) => 's',
    }
}

/// The text of an expression starts with a bracket and then tells its constructor.
proof fn lemma_heads(e: Expression)
    requires
        !(e is Selector),
    ensures
        circuit::expr_text(e).len() >= 4,
        circuit::expr_text(e)[0] == '(',
        circuit::expr_text(e)[2] == third_char(e),
        e is Sum ==> circuit::expr_text(e)[3] == 'u',
        e is Scaled ==> circuit::expr_text(e)[3] == 'c',
{
    reveal_strlit("(.constant ");
    reveal_strlit("(.fixed ");
    reveal_strlit("(.advice ");
    reveal_strlit("(.instance ");
    reveal_strlit("(.negated ");
    reveal_strlit("(.sum ");
    reveal_strlit("(.product ");
    reveal_strlit("(.scaled ");
    match e {
        Expression::Constant(_) => {},
        _ => {},
    }
}

proof fn lemma_cancel(h: Seq<char>, a: Seq<char>, b: Seq<char>)
    requires
        h + a == h + b,
    ensures
        a == b,
{
    assert((h + a).skip(h.len() as int) =~= a);
    assert((h + b).skip(h.len() as int) =~= b);
}

proof fn lemma_regroup3(h: Seq<char>, a: Seq<char>, c: Seq<char>, x: Seq<char>)
    ensures
        h + a + c + x == h + (a + (c + x)),
{
    assert(h + a + c + x =~= h + (a + (c + x)));
}

proof fn lemma_regroup5(
    h: Seq<char>,
    a: Seq<char>,
    s: Seq<char>,
    b: Seq<char>,
    c: Seq<char>,
    x: Seq<char>,
)
    ensures
        h + a + s + b + c + x == h + (a + (s + (b + (c + x)))),
{
    assert(h + a + s + b + c + x =~= h + (a + (s + (b + (c + x)))));
}

/// The text of an expression tells the expression and where it ends: two texts that start with
/// expressions are the same only if the expressions and the rests are the same.
pub proof fn expression_delimits(e: Expression, f: Expression, x: Seq<char>, y: Seq<char>)
    requires
        circuit::selector_free(e),
        circuit::selector_free(f),
        circuit::expr_text(e) + x == circuit::expr_text(f) + y,
    ensures
        e == f,
        x == y,
    decreases e,
{
    let (s, t) = (circuit::expr_text(e), circuit::expr_text(f));
    lemma_heads(e);
    lemma_heads(f);
    assert((s + x)[2] == s[2] && (t + y)[2] == t[2]);
    assert((s + x)[3] == s[3] && (t + y)[3] == t[3]);
    let end = ")"@;
    assert(end.len() == 1 && end[0] == ')') by {
        reveal_strlit(")");
    }
    match (e, f) {
        (Expression::Constant(c), Expression::Constant(d)) => {
            let h = "(.constant "@;
            lemma_regroup3(h, field::fp_text(c), end, x);
            lemma_regroup3(h, field::fp_text(d), end, y);
            lemma_cancel(h, field::fp_text(c) + (end + x), field::fp_text(d) + (end + y));
            field::scalar_literal_delimits(c, d, end + x, end + y);
            lemma_cancel(end, x, y);
        },
        (Expression::Fixed(i), Expression::Fixed(j)) => {
            lemma_query("(.fixed "@, i, j, x, y);
        },
        (Expression::Advice(i), Expression::Advice(j)) => {
            lemma_query("(.advice "@, i, j, x, y);
        },
        (Expression::Instance(i), Expression::Instance(j)) => {
            lemma_query("(.instance "@, i, j, x, y);
        },
        (Expression::Negated(a), Expression::Negated(b)) => {
            let h = "(.negated "@;
            let (p, q) = (circuit::expr_text(*a), circuit::expr_text(*b));
            lemma_regroup3(h, p, end, x);
            lemma_regroup3(h, q, end, y);
            lemma_cancel(h, p + (end + x), q + (end + y));
            expression_delimits(*a, *b, end + x, end + y);
            lemma_cancel(end, x, y);
        },
        (Expression::Sum(a, b), Expression::Sum(c, d)) => {
            let h = "(.sum "@;
            let (p, q) = (circuit::expr_text(*a), circuit::expr_text(*b));
            let (r, u) = (circuit::expr_text(*c), circuit::expr_text(*d));
            lemma_regroup5(h, p, " "@, q, end, x);
            lemma_regroup5(h, r, " "@, u, end, y);
            lemma_cancel(h, p + (" "@ + (q + (end + x))), r + (" "@ + (u + (end + y))));
            expression_delimits(*a, *c, " "@ + (q + (end + x)), " "@ + (u + (end + y)));
            lemma_cancel(" "@, q + (end + x), u + (end + y));
            expression_delimits(*b, *d, end + x, end + y);
            lemma_cancel(end, x, y);
        },
        (Expression::Product(a, b), Expression::Product(c, d)) => {
            let h = "(.product "@;
            let (p, q) = (circuit::expr_text(*a), circuit::expr_text(*b));
            let (r, u) = (circuit::expr_text(*c), circuit::expr_text(*d));
            lemma_regroup5(h, p, " "@, q, end, x);
            lemma_regroup5(h, r, " "@, u, end, y);
            lemma_cancel(h, p + (" "@ + (q + (end + x))), r + (" "@ + (u + (end + y))));
            expression_delimits(*a, *c, " "@ + (q + (end + x)), " "@ + (u + (end + y)));
            lemma_cancel(" "@, q + (end + x), u + (end + y));
            expression_delimits(*b, *d, end + x, end + y);
            lemma_cancel(end, x, y);
        },
        (Expression::Scaled(a, c), Expression::Scaled(b, d)) => {
            let h = "(.scaled "@;
            let (p, q) = (circuit::expr_text(*a), circuit::expr_text(*b));
            let (r, u) = (field::fp_text(c), field::fp_text(d));
            lemma_regroup5(h, p, " "@, r, end, x);
            lemma_regroup5(h, q, " "@, u, end, y);
            lemma_cancel(h, p + (" "@ + (r + (end + x))), q + (" "@ + (u + (end + y))));
            expression_delimits(*a, *b, " "@ + (r + (end + x)), " "@ + (u + (end + y)));
            lemma_cancel(" "@, r + (end + x), u + (end + y));
            field::scalar_literal_delimits(c, d, end + x, end + y);
            lemma_cancel(end, x, y);
        },
        _ => {},
    }
}

proof fn lemma_query(h: Seq<char>, i: usize, j: usize, x: Seq<char>, y: Seq<char>)
    requires
        h + text::decimal(i as nat) + ")"@ + x == h + text::decimal(j as nat) + ")"@ + y,
    ensures
        i == j,
        x == y,
{
    let (a, b, end) = (text::decimal(i as nat), text::decimal(j as nat), ")"@);
    assert(end.len() == 1 && end[0] == ')') by {
        reveal_strlit(")");
    }
    lemma_regroup3(h, a, end, x);
    lemma_regroup3(h, b, end, y);
    lemma_cancel(h, a + (end + x), b + (end + y));
    text::numeral_delimits(i as nat, j as nat, end + x, end + y);
    lemma_cancel(end, x, y);
}

proof fn lemma_front(parts: Seq<Seq<char>>)
    requires
        parts.len() > 1,
    ensures
        text::comma_separated(parts) == parts[0] + seq![',', ' '] + text::comma_separated(
            parts.drop_first(),
        ),
{
    let first = seq![parts[0]];
    text::lists_are_put_together(first, parts.drop_first());
    assert(first + parts.drop_first() =~= parts);
}

/// The text of a list of expressions tells the list and where it ends.
pub proof fn expression_list_delimits(
    a: Seq<Expression>,
    b: Seq<Expression>,
    x: Seq<char>,
    y: Seq<char>,
)
    requires
        circuit::all_selector_free(a),
        circuit::all_selector_free(b),
        text::comma_separated(circuit::expr_texts(a)) + ("]"@ + x) == text::comma_separated(
            circuit::expr_texts(b),
        ) + ("]"@ + y),
    ensures
        a == b,
        x == y,
    decreases a.len(),
{
    let (ta, tb) = (circuit::expr_texts(a), circuit::expr_texts(b));
    let (ca, cb) = (text::comma_separated(ta), text::comma_separated(tb));
    assert("]"@.len() == 1 && "]"@[0] == ']') by {
        reveal_strlit("]");
    }
    if a.len() > 0 {
        lemma_heads(a[0]);
        lemma_list_starts(a);
    }
    if b.len() > 0 {
        lemma_heads(b[0]);
        lemma_list_starts(b);
    }
    if a.len() == 0 || b.len() == 0 {
        assert((ca + ("]"@ + x))[0] == (cb + ("]"@ + y))[0]);
        assert(a.len() == 0 && b.len() == 0);
        assert(a =~= b);
        assert(ca =~= Seq::empty() && cb =~= Seq::empty());
        assert(ca + ("]"@ + x) =~= "]"@ + x);
        assert(cb + ("]"@ + y) =~= "]"@ + y);
        lemma_cancel("]"@, x, y);
    } else {
        let (ra, rb) = (rest_of(a, x), rest_of(b, y));
        lemma_rest(a, x);
        lemma_rest(b, y);
        expression_delimits(a[0], b[0], ra, rb);
        let (sa, sb) = (a.drop_first(), b.drop_first());
        assert(ra[0] == rb[0]);
        assert(a =~= seq![a[0]] + sa && b =~= seq![b[0]] + sb);
        if a.len() == 1 {
            assert(b.len() == 1);
            assert(sa =~= sb);
            lemma_cancel("]"@, x, y);
        } else {
            assert(b.len() > 1);
            let (pa, pb) = (
                text::comma_separated(circuit::expr_texts(sa)) + ("]"@ + x),
                text::comma_separated(circuit::expr_texts(sb)) + ("]"@ + y),
            );
            lemma_cancel(seq![',', ' '], pa, pb);
            assert forall|i: int| 0 <= i < sa.len() implies circuit::selector_free(
                #[trigger] sa[i],
            ) by {
                assert(sa[i] == a[i + 1]);
            }
            assert forall|i: int| 0 <= i < sb.len() implies circuit::selector_free(
                #[trigger] sb[i],
            ) by {
                assert(sb[i] == b[i + 1]);
            }
            expression_list_delimits(sa, sb, x, y);
        }
    }
}

/// What follows the first expression of a list.
spec fn rest_of(a: Seq<Expression>, x: Seq<char>) -> Seq<char> {
    if a.len() == 1 {
        "]"@ + x
    } else {
        seq![',', ' '] + (text::comma_separated(circuit::expr_texts(a.drop_first())) + ("]"@ + x))
    }
}

proof fn lemma_rest(a: Seq<Expression>, x: Seq<char>)
    requires
        a.len() > 0,
    ensures
        text::comma_separated(circuit::expr_texts(a)) + ("]"@ + x) == circuit::expr_text(a[0])
            + rest_of(a, x),
{
    let ta = circuit::expr_texts(a);
    if a.len() > 1 {
        lemma_front(ta);
        assert(ta.drop_first() =~= circuit::expr_texts(a.drop_first()));
        assert(text::comma_separated(ta) + ("]"@ + x) =~= circuit::expr_text(a[0]) + rest_of(a, x));
    }
}

proof fn lemma_list_starts(a: Seq<Expression>)
    requires
        a.len() > 0,
        circuit::expr_text(a[0]).len() > 0,
    ensures
        text::comma_separated(circuit::expr_texts(a)).len() > 0,
        text::comma_separated(circuit::expr_texts(a))[0] == circuit::expr_text(a[0])[0],
{
    if a.len() > 1 {
        lemma_front(circuit::expr_texts(a));
    }
}

/// Each lookup is rendered from its own expressions: the list at its place is the bracketed list of
/// the texts of its own inputs, or of its own table, in order.
pub proof fn lookups_are_rendered_one_by_one(lookups: Seq<LookupArgument>, l: int)
    requires
        0 <= l < lookups.len(),
    ensures
        circuit::lookup_input_texts(lookups).len() == lookups.len(),
        circuit::lookup_table_texts(lookups).len() == lookups.len(),
        circuit::lookup_input_texts(lookups)[l] == "["@ + text::comma_separated(
            Seq::new(
                lookups[l].input_expressions@.len(),
                |i: int| circuit::expr_text(lookups[l].input_expressions@[i]),
            ),
        ) + "]"@,
        circuit::lookup_table_texts(lookups)[l] == "["@ + text::comma_separated(
            Seq::new(
                lookups[l].table_expressions@.len(),
                |i: int| circuit::expr_text(lookups[l].table_expressions@[i]),
            ),
        ) + "]"@,
{
    let (a, b) = (lookups[l].input_expressions@, lookups[l].table_expressions@);
    assert(circuit::expr_texts(a) =~= Seq::new(a.len(), |i: int| circuit::expr_text(a[i])));
    assert(circuit::expr_texts(b) =~= Seq::new(b.len(), |i: int| circuit::expr_text(b[i])));
}

/// Two lookups without virtual selectors have the same rendered inputs only if they have the same
/// inputs, and the same rendered table only if they have the same table.
pub proof fn rendered_lookups_are_distinct(lookups: Seq<LookupArgument>, l: int, m: int)
    requires
        0 <= l < lookups.len(),
        0 <= m < lookups.len(),
        circuit::lookups_selector_free(lookups),
    ensures
        circuit::lookup_input_texts(lookups)[l] == circuit::lookup_input_texts(lookups)[m]
            ==> lookups[l].input_expressions@ == lookups[m].input_expressions@,
        circuit::lookup_table_texts(lookups)[l] == circuit::lookup_table_texts(lookups)[m]
            ==> lookups[l].table_expressions@ == lookups[m].table_expressions@,
{
    if circuit::lookup_input_texts(lookups)[l] == circuit::lookup_input_texts(lookups)[m] {
        lemma_bracketed(lookups[l].input_expressions@, lookups[m].input_expressions@);
    }
    if circuit::lookup_table_texts(lookups)[l] == circuit::lookup_table_texts(lookups)[m] {
        lemma_bracketed(lookups[l].table_expressions@, lookups[m].table_expressions@);
    }
}

proof fn lemma_bracketed(a: Seq<Expression>, b: Seq<Expression>)
    requires
        circuit::all_selector_free(a),
        circuit::all_selector_free(b),
        circuit::expr_list_text(a) == circuit::expr_list_text(b),
    ensures
        a == b,
{
    let none = Seq::<char>::empty();
    let (ca, cb) = (
        text::comma_separated(circuit::expr_texts(a)),
        text::comma_separated(circuit::expr_texts(b)),
    );
    assert("["@ + ca + "]"@ =~= "["@ + (ca + ("]"@ + none)));
    assert("["@ + cb + "]"@ =~= "["@ + (cb + ("]"@ + none)));
    lemma_cancel("["@, ca + ("]"@ + none), cb + ("]"@ + none));
    expression_list_delimits(a, b, none, none);
}

/// The polynomials of a list of gates are those of its gates, gate after gate, and their texts
/// follow them.
pub proof fn gates_are_put_together(a: Seq<Gate>, b: Seq<Gate>, g: Gate, i: int)
    ensures
        circuit::gate_polynomials(Seq::empty()) == Seq::<Expression>::empty(),
        circuit::gate_polynomials(seq![g]) == g.polynomials@,
        circuit::gate_polynomials(a + b) == circuit::gate_polynomials(a)
            + circuit::gate_polynomials(b),
        circuit::expr_texts(g.polynomials@).len() == g.polynomials@.len(),
        0 <= i < g.polynomials@.len() ==> circuit::expr_texts(g.polynomials@)[i]
            == circuit::expr_text(g.polynomials@[i]),
    decreases b.len(),
{
    assert(circuit::gate_polynomials(Seq::empty()) =~= Seq::<Expression>::empty());
    assert(seq![g].drop_last() =~= Seq::empty());
    assert(seq![g].last() == g);
    assert(circuit::gate_polynomials(seq![g]) == circuit::gate_polynomials(seq![g].drop_last())
        + g.polynomials@);
    assert(circuit::gate_polynomials(seq![g]) =~= g.polynomials@);
    if b.len() > 0 {
        gates_are_put_together(a, b.drop_last(), g, i);
        assert((a + b).drop_last() =~= a + b.drop_last());
        assert(circuit::gate_polynomials(a + b) =~= circuit::gate_polynomials(a)
            + circuit::gate_polynomials(b));
    } else {
        assert(a + b =~= a);
        assert(circuit::gate_polynomials(b) =~= Seq::<Expression>::empty());
        assert(circuit::gate_polynomials(a) + circuit::gate_polynomials(b)
            =~= circuit::gate_polynomials(a));
    }
}

/// Whether a text reads as the pair of a column and a rotation: a numeral that denotes the column,
/// and a numeral with an optional minus sign that denotes the rotation, as a Lean integer.
pub open spec fn reads_as_query(s: Seq<char>, column: int, rotation: int) -> bool {
    exists|a: Seq<char>, b: Seq<char>|
        #![trigger text::numeral_value(a), text::signed_value(b)]
        {
            &&& s == "("@ + a + ", ("@ + b + " : ℤ))"@
            &&& text::all_digits(a)
            &&& a.len() > 0
            &&& text::numeral_value(a) == column
            &&& text::signed_value(b) == rotation
            &&& b.len() > 0
            &&& b[0] == '-' <==> rotation < 0
            &&& text::all_digits(
                if rotation < 0 {
                    b.drop_first()
                } else {
                    b
                },
            )
        }
}

/// A rendered query reads as its own column and its own rotation, with the sign that it has, and the
/// layout is rendered query by query.
pub proof fn queries_read_back(queries: Seq<Query>, i: int)
    requires
        0 <= i < queries.len(),
    ensures
        circuit::layout_texts(queries).len() == queries.len(),
        reads_as_query(
            circuit::layout_texts(queries)[i],
            queries[i].column as int,
            queries[i].rotation as int,
        ),
{
    let q = queries[i];
    let (a, b) = (text::decimal(q.column as nat), text::signed_decimal(q.rotation as int));
    text::numeral_reads_back(q.column as nat);
    text::numeral_is_digits(q.column as nat);
    text::numeral_has_no_leading_zero(q.column as nat);
    text::signed_numeral_reads_back(q.rotation as int);
    assert(circuit::layout_texts(queries)[i] == "("@ + a + ", ("@ + b + " : ℤ))"@);
    assert(text::numeral_value(a) == q.column as int && text::signed_value(b) == q.rotation as int);
}

/// Two queries have one text only if they are the same query.
pub proof fn rendered_queries_are_distinct(q: Query, r: Query)
    requires
        circuit::query_text(q) == circuit::query_text(r),
    ensures
        q == r,
{
    let (a, b) = (text::decimal(q.column as nat), text::signed_decimal(q.rotation as int));
    let (c, d) = (text::decimal(r.column as nat), text::signed_decimal(r.rotation as int));
    let (mid, end) = (", ("@, " : ℤ))"@);
    assert(mid.len() > 0 && mid[0] == ',' && end.len() > 0 && end[0] == ' ') by {
        reveal_strlit(", (");
        reveal_strlit(" : ℤ))");
    }
    assert("("@ + a + mid + b + end =~= "("@ + (a + (mid + (b + end))));
    assert("("@ + c + mid + d + end =~= "("@ + (c + (mid + (d + end))));
    lemma_cancel("("@, a + (mid + (b + end)), c + (mid + (d + end)));
    text::numeral_delimits(
        q.column as nat,
        r.column as nat,
        mid + (b + end),
        mid + (d + end),
    );
    lemma_cancel(mid, b + end, d + end);
    text::signed_numeral_delimits(q.rotation as int, r.rotation as int, end, end);
}

/// A column is found at its first query at the current row, in the layout of its own kind, and is
/// found if there is such a query at all.
pub proof fn columns_are_found_at_their_first_query(
    cs: ConstraintSystem,
    queries: Seq<Query>,
    column: usize,
    i: int,
)
    requires
        0 <= i < queries.len(),
        queries[i].column == column && queries[i].rotation == 0,
        forall|j: int|
            0 <= j < i ==> !((#[trigger] queries[j]).column == column && queries[j].rotation == 0),
    ensures
        circuit::queries_column(queries, column),
        circuit::query_position(queries, column) == i,
        cs.layout(Any::Advice) == cs.advice_queries@,
        cs.layout(Any::Fixed) == cs.fixed_queries@,
        cs.layout(Any::Instance) == cs.instance_queries@,
    decreases queries.len(),
{
    assert(queries[i] == (Query { column, rotation: 0 }));
    if i > 0 {
        let rest = queries.drop_first();
        assert(queries[0] != (Query { column, rotation: 0 }));
        assert forall|j: int| 0 <= j < i - 1 implies !((#[trigger] rest[j]).column == column
            && rest[j].rotation == 0) by {
            assert(rest[j] == queries[j + 1]);
        }
        columns_are_found_at_their_first_query(cs, rest, column, i - 1);
    }
}

/// A permutation column is rendered as a reference of its own kind to the place of its query,
/// together with its own place among the permutation columns.
pub proof fn permutation_columns_name_their_queries(cs: ConstraintSystem, n: int, q: nat)
    requires
        0 <= n < cs.permutation_columns@.len(),
        q == circuit::query_position(
            match cs.permutation_columns@[n].column_type {
                Any::Advice => cs.advice_queries@,
                Any::Fixed => cs.fixed_queries@,
                Any::Instance => cs.instance_queries@,
            },
            cs.permutation_columns@[n].index,
        ),
    ensures
        cs.permutation_entry(n) == "("@ + (match cs.permutation_columns@[n].column_type {
            Any::Advice => "(.advice "@,
            Any::Fixed => "(.fixed "@,
            Any::Instance => "(.instance "@,
        }) + text::decimal(q) + ")"@ + ", "@ + text::decimal(n as nat) + ")"@,
{
    let head = match cs.permutation_columns@[n].column_type {
        Any::Advice => "(.advice "@,
        Any::Fixed => "(.fixed "@,
        Any::Instance => "(.instance "@,
    };
    let (d, m) = (text::decimal(q), text::decimal(n as nat));
    assert("("@ + (head + d + ")"@) + ", "@ + m + ")"@ =~= "("@ + head + d + ")"@ + ", "@ + m
        + ")"@);
}

/// The number of chunks is the least one that is enough for all columns.
pub proof fn chunks_are_just_enough(total: nat, chunk_len: nat)
    ensures
        chunk_len > 0 ==> total <= circuit::chunk_count(total, chunk_len) * chunk_len,
        chunk_len > 0 ==> circuit::chunk_count(total, chunk_len) * chunk_len < total + chunk_len,
        chunk_len == 0 ==> circuit::chunk_count(total, chunk_len) == 0,
{
    if chunk_len > 0 {
        let c = chunk_len as int;
        let (a, q) = (total + c - 1, (total + c - 1) / c);
        vstd::arithmetic::div_mod::lemma_fundamental_div_mod(a, c);
        let r = a % c;
        assert(q >= 0 && q * c == c * q) by (nonlinear_arith)
            requires
                a == c * q + r,
                0 <= r < c,
                a >= 0,
        ;
        assert(circuit::chunk_count(total, chunk_len) == q as nat);
        assert(circuit::chunk_count(total, chunk_len) * chunk_len == q * c);
    }
}

/// The chunk at a place holds the next columns in order, as many as its length allows.
pub proof fn chunks_hold_consecutive_columns(cs: ConstraintSystem, chunk_len: nat, lo: nat, j: nat)
    requires
        chunk_len > 0,
        lo + j * chunk_len < cs.permutation_columns@.len(),
    ensures
        j < cs.permutation_chunks(chunk_len, lo).len(),
        ({
            let total = cs.permutation_columns@.len();
            let first = lo + j * chunk_len;
            let n = if first + chunk_len <= total {
                chunk_len
            } else {
                (total - first) as nat
            };
            cs.permutation_chunks(chunk_len, lo)[j as int] == "["@ + text::comma_separated(
                Seq::new(n, |i: int| cs.permutation_entry(first + i)),
            ) + "]"@
        }),
    decreases j,
{
    let total = cs.permutation_columns@.len();
    let first = lo + j * chunk_len;
    let hi = if lo + chunk_len <= total {
        lo + chunk_len
    } else {
        total
    };
    assert(lo < total) by {
        assert(j * chunk_len >= 0) by (nonlinear_arith);
    }
    if j > 0 {
        let p = (j - 1) as nat;
        assert(j * chunk_len == p * chunk_len + chunk_len) by (nonlinear_arith)
            requires
                j == p + 1,
        ;
        assert(p * chunk_len >= 0) by (nonlinear_arith);
        chunks_hold_consecutive_columns(cs, chunk_len, hi, p);
    } else {
        assert(j * chunk_len == 0) by (nonlinear_arith)
            requires
                j == 0,
        ;
        assert(cs.permutation_entries(lo as int, hi as int) =~= Seq::new(
            (hi - lo) as nat,
            |i: int| cs.permutation_entry(lo + i),
        ));
    }
}

} // verus!
