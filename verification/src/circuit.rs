//! The constraint system of a verifying key, and its Lean rendering: expressions, query layouts
//! and permutation chunks.

use vstd::prelude::*;
use vstd::string::*;

use crate::field;
use crate::field::Fp;
use crate::text;

verus! {

/// The kind of a column.
#[derive(Clone, Copy, Debug, PartialEq, Eq, Structural)]
pub enum Any {
    /// A column of the prover's witness.
    Advice,
    /// A column fixed by the circuit.
    Fixed,
    /// A column of public inputs.
    Instance,
}

/// A column of any kind.
#[derive(Clone, Copy, Debug, PartialEq, Eq, Structural)]
pub struct Column {
    /// The position among the columns of its kind.
    pub index: usize,
    /// The kind.
    pub column_type: Any,
}

/// A query of a column at a rotation; the list that holds it tells the kind of the column.
#[derive(Clone, Copy, Debug, PartialEq, Eq, Structural)]
pub struct Query {
    /// The position of the column among the columns of its kind.
    pub column: usize,
    /// The row relative to the current one.
    pub rotation: i32,
}

/// A gate or lookup expression. A query is named by its position in the query layout.
#[derive(Debug)]
pub enum Expression {
    /// A constant.
    Constant(Fp),
    /// A virtual selector; these are removed before verification.
    Selector(usize),
    /// A fixed query.
    Fixed(usize),
    /// An advice query.
    Advice(usize),
    /// An instance query.
    Instance(usize),
    /// A negated expression.
    Negated(Box<Expression>),
    /// A sum.
    Sum(Box<Expression>, Box<Expression>),
    /// A product.
    Product(Box<Expression>, Box<Expression>),
    /// An expression times a constant.
    Scaled(Box<Expression>, Fp),
}

/// A custom gate.
#[derive(Debug)]
pub struct Gate {
    /// The polynomials that vanish on every row.
    pub polynomials: Vec<Expression>,
}

/// A lookup argument.
#[derive(Debug)]
pub struct LookupArgument {
    /// What is looked up.
    pub input_expressions: Vec<Expression>,
    /// Where it is looked up.
    pub table_expressions: Vec<Expression>,
}

/// What a verifying key says of the circuit.
#[derive(Debug)]
pub struct ConstraintSystem {
    /// How many advice columns there are.
    pub num_advice_columns: usize,
    /// How many instance columns there are.
    pub num_instance_columns: usize,
    /// The custom gates.
    pub gates: Vec<Gate>,
    /// The advice queries, in the order of their evaluations in a proof.
    pub advice_queries: Vec<Query>,
    /// The instance queries, in the order of their evaluations in a proof.
    pub instance_queries: Vec<Query>,
    /// The fixed queries, in the order of their evaluations in a proof.
    pub fixed_queries: Vec<Query>,
    /// The columns of the permutation argument.
    pub permutation_columns: Vec<Column>,
    /// The lookup arguments.
    pub lookups: Vec<LookupArgument>,
    /// How many rows at the end of each column are random.
    pub blinding_factors: usize,
}

/// Whether no virtual selector occurs in an expression.
pub open spec fn selector_free(e: Expression) -> bool
    decreases e,
{
    match e {
        Expression::Selector(_) => false,
        Expression::Negated(a) => selector_free(*a),
        Expression::Sum(a, b) => selector_free(*a) && selector_free(*b),
        Expression::Product(a, b) => selector_free(*a) && selector_free(*b),
        Expression::Scaled(a, _) => selector_free(*a),
        _ => true,
    }
}

/// Whether no virtual selector occurs in a list of expressions.
pub open spec fn all_selector_free(es: Seq<Expression>) -> bool {
    forall|i: int| 0 <= i < es.len() ==> selector_free(#[trigger] es[i])
}

/// The Lean `Expr Fp` literal of an expression without virtual selectors.
pub open spec fn expr_text(e: Expression) -> Seq<char>
    decreases e,
{
    match e {
        Expression::Constant(c) => "(.constant "@ + field::fp_text(c) + ")"@,
        Expression::Selector(_) => Seq::empty(),
        Expression::Fixed(i) => "(.fixed "@ + text::decimal(i as nat) + ")"@,
        Expression::Advice(i) => "(.advice "@ + text::decimal(i as nat) + ")"@,
        Expression::Instance(i) => "(.instance "@ + text::decimal(i as nat) + ")"@,
        Expression::Negated(a) => "(.negated "@ + expr_text(*a) + ")"@,
        Expression::Sum(a, b) => "(.sum "@ + expr_text(*a) + " "@ + expr_text(*b) + ")"@,
        Expression::Product(a, b) => "(.product "@ + expr_text(*a) + " "@ + expr_text(*b) + ")"@,
        Expression::Scaled(a, c) => "(.scaled "@ + expr_text(*a) + " "@ + field::fp_text(c)
            + ")"@,
    }
}

/// The Lean literals of a list of expressions.
pub open spec fn expr_texts(es: Seq<Expression>) -> Seq<Seq<char>> {
    es.map_values(|e: Expression| expr_text(e))
}

/// The Lean list of a list of expressions.
pub open spec fn expr_list_text(es: Seq<Expression>) -> Seq<char> {
    "["@ + text::comma_separated(expr_texts(es)) + "]"@
}

/// All polynomials of a list of gates, gate after gate.
pub open spec fn gate_polynomials(gates: Seq<Gate>) -> Seq<Expression>
    decreases gates.len(),
{
    if gates.len() == 0 {
        Seq::empty()
    } else {
        gate_polynomials(gates.drop_last()) + gates.last().polynomials@
    }
}

/// The Lean lists of the input expressions of all lookups.
pub open spec fn lookup_input_texts(lookups: Seq<LookupArgument>) -> Seq<Seq<char>> {
    lookups.map_values(|l: LookupArgument| expr_list_text(l.input_expressions@))
}

/// The Lean lists of the table expressions of all lookups.
pub open spec fn lookup_table_texts(lookups: Seq<LookupArgument>) -> Seq<Seq<char>> {
    lookups.map_values(|l: LookupArgument| expr_list_text(l.table_expressions@))
}

/// Whether no virtual selector occurs in any lookup.
pub open spec fn lookups_selector_free(lookups: Seq<LookupArgument>) -> bool {
    forall|i: int|
        0 <= i < lookups.len() ==> all_selector_free(
            (#[trigger] lookups[i]).input_expressions@,
        ) && all_selector_free(lookups[i].table_expressions@)
}

/// The Lean pair of a query: the column and the rotation.
pub open spec fn query_text(q: Query) -> Seq<char> {
    "("@ + text::decimal(q.column as nat) + ", ("@ + text::signed_decimal(q.rotation as int)
        + " : ℤ))"@
}

/// The Lean pairs of a query layout.
pub open spec fn layout_texts(queries: Seq<Query>) -> Seq<Seq<char>> {
    queries.map_values(|q: Query| query_text(q))
}

/// Whether a layout queries a column at the current row.
pub open spec fn queries_column(queries: Seq<Query>, column: usize) -> bool {
    queries.contains(Query { column, rotation: 0 })
}

/// The position of the first query of a column at the current row.
pub open spec fn query_position(queries: Seq<Query>, column: usize) -> nat
    decreases queries.len(),
{
    if queries.len() == 0 || queries[0] == (Query { column, rotation: 0 }) {
        0
    } else {
        1 + query_position(queries.drop_first(), column)
    }
}

/// How many chunks of a given length a list falls into, the last one perhaps shorter.
pub open spec fn chunk_count(total: nat, chunk_len: nat) -> nat {
    if chunk_len == 0 {
        0
    } else {
        ((total + chunk_len - 1) / chunk_len as int) as nat
    }
}

impl ConstraintSystem {
    /// The query layout of a kind of column.
    pub open spec fn layout(self, kind: Any) -> Seq<Query> {
        match kind {
            Any::Advice => self.advice_queries@,
            Any::Fixed => self.fixed_queries@,
            Any::Instance => self.instance_queries@,
        }
    }

    /// Whether every permutation column is queried at the current row.
    pub open spec fn permutation_queried(self) -> bool {
        forall|i: int|
            0 <= i < self.permutation_columns@.len() ==> queries_column(
                self.layout((#[trigger] self.permutation_columns@[i]).column_type),
                self.permutation_columns@[i].index,
            )
    }

    /// The Lean entry of the permutation column at a position: its query, and the position as the
    /// index of its common evaluation.
    pub open spec fn permutation_entry(self, i: int) -> Seq<char> {
        let column = self.permutation_columns@[i];
        "("@ + column_text(
            column.column_type,
            query_position(self.layout(column.column_type), column.index),
        ) + ", "@ + text::decimal(i as nat) + ")"@
    }

    /// The Lean entries of the permutation columns from `lo` up to `hi`.
    pub open spec fn permutation_entries(self, lo: int, hi: int) -> Seq<Seq<char>> {
        Seq::new((hi - lo) as nat, |j: int| self.permutation_entry(lo + j))
    }

    /// The Lean lists of the permutation columns from `lo` on, in chunks of a given length.
    pub open spec fn permutation_chunks(self, chunk_len: nat, lo: nat) -> Seq<Seq<char>>
        decreases self.permutation_columns@.len() - lo,
    {
        let total = self.permutation_columns@.len();
        if lo >= total || chunk_len == 0 {
            Seq::empty()
        } else {
            let hi = if lo + chunk_len <= total {
                lo + chunk_len
            } else {
                total
            };
            seq![
                "["@ + text::comma_separated(self.permutation_entries(lo as int, hi as int)) + "]"@,
            ] + self.permutation_chunks(chunk_len, hi)
        }
    }
}

/// The Lean reference to a queried column.
pub open spec fn column_text(kind: Any, query: nat) -> Seq<char> {
    match kind {
        Any::Advice => "(.advice "@ + text::decimal(query) + ")"@,
        Any::Fixed => "(.fixed "@ + text::decimal(query) + ")"@,
        Any::Instance => "(.instance "@ + text::decimal(query) + ")"@,
    }
}

/// As many permutation chunks are rendered as the permutation argument has sets.
pub proof fn chunks_match_sets(cs: ConstraintSystem, chunk_len: nat, lo: nat)
    requires
        lo <= cs.permutation_columns@.len(),
        chunk_len > 0,
    ensures
        cs.permutation_chunks(chunk_len, lo).len() == chunk_count(
            (cs.permutation_columns@.len() - lo) as nat,
            chunk_len,
        ),
    decreases cs.permutation_columns@.len() - lo,
{
    let total = cs.permutation_columns@.len();
    let left = total - lo;
    let c = chunk_len as int;
    if lo < total {
        let hi = if lo + chunk_len <= total {
            lo + chunk_len
        } else {
            total
        };
        chunks_match_sets(cs, chunk_len, hi);
        if lo + chunk_len <= total {
            assert((left + c - 1) / c == 1 + (left - c + c - 1) / c) by (nonlinear_arith)
                requires
                    c > 0,
            ;
        } else {
            assert((left + c - 1) / c == 1) by (nonlinear_arith)
                requires
                    0 < left <= c,
            ;
            assert((0 + c - 1) / c == 0) by (nonlinear_arith)
                requires
                    c > 0,
            ;
        }
    } else {
        assert((0 + c - 1) / c == 0) by (nonlinear_arith)
            requires
                c > 0,
        ;
    }
}

/// The position of a query leads to a query of the column at the current row.
pub proof fn query_position_resolves(queries: Seq<Query>, column: usize)
    requires
        queries_column(queries, column),
    ensures
        query_position(queries, column) < queries.len(),
        queries[query_position(queries, column) as int] == (Query { column, rotation: 0 }),
    decreases queries.len(),
{
    let wanted = Query { column, rotation: 0 };
    if queries[0] != wanted {
        let i = choose|i: int| 0 <= i < queries.len() && queries[i] == wanted;
        assert(queries.drop_first()[i - 1] == wanted);
        query_position_resolves(queries.drop_first(), column);
    }
}

/// Whether an expression has no virtual selector.
pub fn is_selector_free(e: &Expression) -> (r: bool)
    ensures
        r == selector_free(*e),
    decreases *e,
{
    match e {
        Expression::Constant(_) => true,
        Expression::Selector(_) => false,
        Expression::Fixed(_) => true,
        Expression::Advice(_) => true,
        Expression::Instance(_) => true,
        Expression::Negated(a) => is_selector_free(a),
        Expression::Sum(a, b) => is_selector_free(a) && is_selector_free(b),
        Expression::Product(a, b) => is_selector_free(a) && is_selector_free(b),
        Expression::Scaled(a, _) => is_selector_free(a),
    }
}

/// Whether a list of expressions has no virtual selector.
pub fn are_selector_free(es: &Vec<Expression>) -> (r: bool)
    ensures
        r == all_selector_free(es@),
{
    let mut i: usize = 0;
    while i < es.len()
        invariant
            i <= es@.len(),
            forall|j: int| 0 <= j < i ==> selector_free(#[trigger] es@[j]),
        decreases es@.len() - i,
    {
        if !is_selector_free(&es[i]) {
            return false;
        }
        i = i + 1;
    }
    true
}

fn wrapped(open: &str, inner: String) -> (s: String)
    ensures
        s@ == open@ + inner@ + ")"@,
{
    let mut s = open.to_owned();
    s.append(inner.as_str());
    s.append(")");
    s
}

fn wrapped_pair(open: &str, first: String, second: String) -> (s: String)
    ensures
        s@ == open@ + first@ + " "@ + second@ + ")"@,
{
    let mut s = open.to_owned();
    s.append(first.as_str());
    s.append(" ");
    s.append(second.as_str());
    s.append(")");
    s
}

/// Serialize one gate / lookup `Expression` to a Lean `Expr Fp` literal. Virtual selectors are
/// removed before verification, so an expression that has one is left out.
pub fn expr_to_lean(e: &Expression) -> (s: String)
    requires
        selector_free(*e),
    ensures
        s@ == expr_text(*e),
    decreases *e,
{
    match e {
        Expression::Constant(c) => wrapped("(.constant ", field::fp(*c)),
        Expression::Selector(_) => String::new(),
        Expression::Fixed(i) => wrapped("(.fixed ", text::number(*i as u64)),
        Expression::Advice(i) => wrapped("(.advice ", text::number(*i as u64)),
        Expression::Instance(i) => wrapped("(.instance ", text::number(*i as u64)),
        Expression::Negated(a) => wrapped("(.negated ", expr_to_lean(a)),
        Expression::Sum(a, b) => wrapped_pair("(.sum ", expr_to_lean(a), expr_to_lean(b)),
        Expression::Product(a, b) => wrapped_pair("(.product ", expr_to_lean(a), expr_to_lean(b)),
        Expression::Scaled(a, c) => wrapped_pair("(.scaled ", expr_to_lean(a), field::fp(*c)),
    }
}

/// The Lean literals of a list of expressions, added to those at hand.
fn push_exprs(es: &Vec<Expression>, out: &mut Vec<String>)
    requires
        all_selector_free(es@),
    ensures
        text::contents(final(out)@) == text::contents(old(out)@) + expr_texts(es@),
{
    let mut i: usize = 0;
    while i < es.len()
        invariant
            all_selector_free(es@),
            i <= es@.len(),
            text::contents(out@) =~= text::contents(old(out)@) + expr_texts(es@).take(i as int),
        decreases es@.len() - i,
    {
        let ghost before = text::contents(out@);
        out.push(expr_to_lean(&es[i]));
        i = i + 1;
        assert(text::contents(out@) =~= before.push(expr_text(es@[i - 1])));
    }
    assert(expr_texts(es@).take(es@.len() as int) =~= expr_texts(es@));
}

/// The Lean list of a list of expressions.
pub fn expr_list(es: &Vec<Expression>) -> (s: String)
    requires
        all_selector_free(es@),
    ensures
        s@ == expr_list_text(es@),
{
    let mut parts: Vec<String> = Vec::new();
    push_exprs(es, &mut parts);
    assert(text::contents(parts@) =~= expr_texts(es@));
    let mut s = "[".to_owned();
    s.append(text::join(parts.as_slice()).as_str());
    s.append("]");
    s
}

/// The Lean pairs of a query layout.
pub fn layout_literals(queries: &Vec<Query>) -> (literals: Vec<String>)
    ensures
        text::contents(literals@) == layout_texts(queries@),
{
    let mut literals: Vec<String> = Vec::new();
    let mut i: usize = 0;
    while i < queries.len()
        invariant
            i <= queries@.len(),
            text::contents(literals@) =~= layout_texts(queries@).take(i as int),
        decreases queries@.len() - i,
    {
        let ghost before = text::contents(literals@);
        let mut s = "(".to_owned();
        s.append(text::number(queries[i].column as u64).as_str());
        s.append(", (");
        s.append(text::signed_number(queries[i].rotation).as_str());
        s.append(" : ℤ))");
        literals.push(s);
        i = i + 1;
        assert(text::contents(literals@) =~= before.push(query_text(queries@[i - 1])));
    }
    assert(layout_texts(queries@).take(queries@.len() as int) =~= layout_texts(queries@));
    literals
}

fn first_query(queries: &Vec<Query>, column: usize) -> (r: Option<usize>)
    ensures
        r is Some <==> queries_column(queries@, column),
        r matches Some(i) ==> i == query_position(queries@, column),
{
    let mut i: usize = 0;
    assert(queries@.skip(0) =~= queries@);
    while i < queries.len()
        invariant
            i <= queries@.len(),
            forall|j: int| 0 <= j < i ==> queries@[j] != (Query { column, rotation: 0 }),
            query_position(queries@, column) == i + query_position(queries@.skip(i as int), column),
        decreases queries@.len() - i,
    {
        if queries[i].column == column && queries[i].rotation == 0 {
            assert(queries@[i as int] == (Query { column, rotation: 0 }));
            return Some(i);
        }
        assert(queries@.skip(i as int).drop_first() =~= queries@.skip(i + 1));
        i = i + 1;
    }
    None
}

impl ConstraintSystem {
    /// The position of the query of a column at the current row, if it has one.
    pub fn get_any_query_index(&self, column: Column) -> (r: Option<usize>)
        ensures
            r is Some <==> queries_column(self.layout(column.column_type), column.index),
            r matches Some(i) ==> i == query_position(
                self.layout(column.column_type),
                column.index,
            ),
    {
        match column.column_type {
            Any::Advice => first_query(&self.advice_queries, column.index),
            Any::Fixed => first_query(&self.fixed_queries, column.index),
            Any::Instance => first_query(&self.instance_queries, column.index),
        }
    }

    /// Whether every permutation column is queried at the current row.
    pub fn is_permutation_queried(&self) -> (r: bool)
        ensures
            r == self.permutation_queried(),
    {
        let mut i: usize = 0;
        while i < self.permutation_columns.len()
            invariant
                i <= self.permutation_columns@.len(),
                forall|j: int|
                    0 <= j < i ==> queries_column(
                        self.layout((#[trigger] self.permutation_columns@[j]).column_type),
                        self.permutation_columns@[j].index,
                    ),
            decreases self.permutation_columns@.len() - i,
        {
            if self.get_any_query_index(self.permutation_columns[i]).is_none() {
                return false;
            }
            i = i + 1;
        }
        true
    }

    /// The Lean literals of all gate polynomials.
    pub fn gate_literals(&self) -> (literals: Vec<String>)
        requires
            all_selector_free(gate_polynomials(self.gates@)),
        ensures
            text::contents(literals@) == expr_texts(gate_polynomials(self.gates@)),
    {
        let mut literals: Vec<String> = Vec::new();
        let mut i: usize = 0;
        assert(self.gates@.take(0) =~= Seq::empty());
        while i < self.gates.len()
            invariant
                all_selector_free(gate_polynomials(self.gates@)),
                i <= self.gates@.len(),
                text::contents(literals@) =~= expr_texts(
                    gate_polynomials(self.gates@.take(i as int)),
                ),
            decreases self.gates@.len() - i,
        {
            let ghost before = text::contents(literals@);
            let ghost seen = gate_polynomials(self.gates@.take(i as int));
            let ghost now = gate_polynomials(self.gates@.take(i + 1));
            proof {
                assert(self.gates@.take(i + 1).drop_last() =~= self.gates@.take(i as int));
                lemma_gate_prefix(self.gates@, i + 1);
                let polynomials = self.gates@[i as int].polynomials@;
                assert forall|j: int| 0 <= j < polynomials.len() implies selector_free(
                    #[trigger] polynomials[j],
                ) by {
                    assert(now[seen.len() + j] == polynomials[j]);
                    assert(gate_polynomials(self.gates@)[seen.len() + j] == polynomials[j]);
                }
            }
            push_exprs(&self.gates[i].polynomials, &mut literals);
            i = i + 1;
            assert(expr_texts(now) =~= expr_texts(seen) + expr_texts(
                self.gates@[i - 1].polynomials@,
            ));
        }
        assert(self.gates@.take(self.gates@.len() as int) =~= self.gates@);
        literals
    }

    /// Whether no gate polynomial has a virtual selector.
    pub fn are_gates_selector_free(&self) -> (r: bool)
        ensures
            r == all_selector_free(gate_polynomials(self.gates@)),
    {
        let mut i: usize = 0;
        assert(self.gates@.take(0) =~= Seq::empty());
        while i < self.gates.len()
            invariant
                i <= self.gates@.len(),
                all_selector_free(gate_polynomials(self.gates@.take(i as int))),
            decreases self.gates@.len() - i,
        {
            let ghost seen = gate_polynomials(self.gates@.take(i as int));
            let ghost now = gate_polynomials(self.gates@.take(i + 1));
            let ghost polynomials = self.gates@[i as int].polynomials@;
            proof {
                assert(self.gates@.take(i + 1).drop_last() =~= self.gates@.take(i as int));
                lemma_gate_prefix(self.gates@, i + 1);
            }
            if !are_selector_free(&self.gates[i].polynomials) {
                proof {
                    let j = choose|j: int|
                        0 <= j < polynomials.len() && !selector_free(#[trigger] polynomials[j]);
                    assert(now[seen.len() + j] == polynomials[j]);
                    assert(gate_polynomials(self.gates@)[seen.len() + j] == polynomials[j]);
                }
                return false;
            }
            i = i + 1;
        }
        assert(self.gates@.take(self.gates@.len() as int) =~= self.gates@);
        true
    }

    /// Whether no lookup expression has a virtual selector.
    pub fn are_lookups_selector_free(&self) -> (r: bool)
        ensures
            r == lookups_selector_free(self.lookups@),
    {
        let mut i: usize = 0;
        while i < self.lookups.len()
            invariant
                i <= self.lookups@.len(),
                forall|j: int|
                    0 <= j < i ==> all_selector_free(
                        (#[trigger] self.lookups@[j]).input_expressions@,
                    ) && all_selector_free(self.lookups@[j].table_expressions@),
            decreases self.lookups@.len() - i,
        {
            if !are_selector_free(&self.lookups[i].input_expressions) || !are_selector_free(
                &self.lookups[i].table_expressions,
            ) {
                return false;
            }
            i = i + 1;
        }
        true
    }

    /// The Lean lists of the input expressions of all lookups.
    pub fn lookup_input_literals(&self) -> (literals: Vec<String>)
        requires
            lookups_selector_free(self.lookups@),
        ensures
            text::contents(literals@) == lookup_input_texts(self.lookups@),
    {
        let mut literals: Vec<String> = Vec::new();
        let mut i: usize = 0;
        while i < self.lookups.len()
            invariant
                lookups_selector_free(self.lookups@),
                i <= self.lookups@.len(),
                text::contents(literals@) =~= lookup_input_texts(self.lookups@).take(i as int),
            decreases self.lookups@.len() - i,
        {
            let ghost before = text::contents(literals@);
            literals.push(expr_list(&self.lookups[i].input_expressions));
            i = i + 1;
            assert(text::contents(literals@) =~= before.push(
                expr_list_text(self.lookups@[i - 1].input_expressions@),
            ));
        }
        assert(lookup_input_texts(self.lookups@).take(self.lookups@.len() as int)
            =~= lookup_input_texts(self.lookups@));
        literals
    }

    /// The Lean lists of the table expressions of all lookups.
    pub fn lookup_table_literals(&self) -> (literals: Vec<String>)
        requires
            lookups_selector_free(self.lookups@),
        ensures
            text::contents(literals@) == lookup_table_texts(self.lookups@),
    {
        let mut literals: Vec<String> = Vec::new();
        let mut i: usize = 0;
        while i < self.lookups.len()
            invariant
                lookups_selector_free(self.lookups@),
                i <= self.lookups@.len(),
                text::contents(literals@) =~= lookup_table_texts(self.lookups@).take(i as int),
            decreases self.lookups@.len() - i,
        {
            let ghost before = text::contents(literals@);
            literals.push(expr_list(&self.lookups[i].table_expressions));
            i = i + 1;
            assert(text::contents(literals@) =~= before.push(
                expr_list_text(self.lookups@[i - 1].table_expressions@),
            ));
        }
        assert(lookup_table_texts(self.lookups@).take(self.lookups@.len() as int)
            =~= lookup_table_texts(self.lookups@));
        literals
    }

    /// The Lean entry of one permutation column.
    fn permutation_entry_literal(&self, i: usize) -> (s: String)
        requires
            i < self.permutation_columns@.len(),
            self.permutation_queried(),
        ensures
            s@ == self.permutation_entry(i as int),
    {
        let column = self.permutation_columns[i];
        let query: usize = self.get_any_query_index(column).unwrap();
        let reference = match column.column_type {
            Any::Advice => wrapped("(.advice ", text::number(query as u64)),
            Any::Fixed => wrapped("(.fixed ", text::number(query as u64)),
            Any::Instance => wrapped("(.instance ", text::number(query as u64)),
        };
        let mut s = "(".to_owned();
        s.append(reference.as_str());
        s.append(", ");
        s.append(text::number(i as u64).as_str());
        s.append(")");
        s
    }

    /// The Lean lists of the permutation columns in chunks of a given length.
    pub fn permutation_chunk_literals(&self, chunk_len: usize) -> (literals: Vec<String>)
        requires
            self.permutation_queried(),
            chunk_len > 0 || self.permutation_columns@.len() == 0,
        ensures
            text::contents(literals@) == self.permutation_chunks(chunk_len as nat, 0),
    {
        let total: usize = self.permutation_columns.len();
        let mut literals: Vec<String> = Vec::new();
        let mut lo: usize = 0;
        assert(text::contents(literals@) =~= Seq::empty());
        while lo < total
            invariant
                total == self.permutation_columns@.len(),
                self.permutation_queried(),
                chunk_len > 0 || total == 0,
                lo <= total,
                text::contents(literals@) + self.permutation_chunks(chunk_len as nat, lo as nat)
                    =~= self.permutation_chunks(chunk_len as nat, 0),
            decreases total - lo,
        {
            let hi: usize = if chunk_len <= total - lo {
                lo + chunk_len
            } else {
                total
            };
            let mut entries: Vec<String> = Vec::new();
            let mut i: usize = lo;
            while i < hi
                invariant
                    total == self.permutation_columns@.len(),
                    self.permutation_queried(),
                    lo <= i <= hi <= total,
                    text::contents(entries@) =~= self.permutation_entries(lo as int, i as int),
                decreases hi - i,
            {
                let ghost before = text::contents(entries@);
                entries.push(self.permutation_entry_literal(i));
                i = i + 1;
                assert(text::contents(entries@) =~= before.push(self.permutation_entry(i - 1)));
            }
            let ghost before = text::contents(literals@);
            let mut chunk = "[".to_owned();
            chunk.append(text::join(entries.as_slice()).as_str());
            chunk.append("]");
            let ghost rendered = chunk@;
            literals.push(chunk);
            assert(text::contents(literals@) =~= before.push(rendered));
            assert(self.permutation_chunks(chunk_len as nat, lo as nat) == seq![rendered]
                + self.permutation_chunks(chunk_len as nat, hi as nat));
            lo = hi;
        }
        assert(self.permutation_chunks(chunk_len as nat, lo as nat) =~= Seq::empty());
        literals
    }
}

/// The polynomials of the first gates come first.
proof fn lemma_gate_prefix(gates: Seq<Gate>, n: int)
    requires
        0 <= n <= gates.len(),
    ensures
        gate_polynomials(gates.take(n)).len() <= gate_polynomials(gates).len(),
        forall|j: int|
            0 <= j < gate_polynomials(gates.take(n)).len() ==> #[trigger] gate_polynomials(
                gates,
            )[j] == gate_polynomials(gates.take(n))[j],
    decreases gates.len(),
{
    if n < gates.len() {
        lemma_gate_prefix(gates.drop_last(), n);
        assert(gates.drop_last().take(n) =~= gates.take(n));
    } else {
        assert(gates.take(n) =~= gates);
    }
}

} // verus!
