//! The relational operator tree that the optimizer rewrites, and the
//! table-reference bitmask queries over it.
//!
//! A `Plan` pairs the root operator with the ordered list of referenced
//! `(table, alias)` pairs. The order is load-bearing: position `i` in that
//! list corresponds to bit `i` in every table-reference bitmask, and table
//! `i` is joined to the left of table `i + 1`. At most 64 tables are
//! supported per query, one bit each.
use vstd::prelude::*;

use crate::expr::{Direction, Expr, ExprV, expr_view, exprs_view, lemma_exprs_view_index};
use crate::schema::{Table, TableV, find_col, normalized, table_view, ident_eq};

verus! {

/// An aggregate computed by an `Aggregate` operator: the function name and
/// arguments, and the expression as it originally appeared, used to match
/// parent expressions against this aggregate's result.
#[derive(Debug, PartialEq)]
pub struct Aggregate {
    pub func: String,
    pub args: Vec<Expr>,
    pub original_expr: Expr,
}

/// The mathematical value of an `Aggregate`.
pub struct AggregateV {
    pub func: Seq<char>,
    pub args: Seq<ExprV>,
    pub original_expr: ExprV,
}

/// One output column of a `Projection`.
#[derive(Debug, PartialEq)]
pub enum ProjectionColumn {
    Column(Expr),
    Star,
    TableStar(String),
}

/// The mathematical value of a `ProjectionColumn`.
pub enum ProjectionColumnV {
    Column(ExprV),
    Star,
    TableStar(Seq<char>),
}

/// A node of the relational operator tree. Every operator that produces
/// rows carries a stable `id`, assigned at plan construction and never
/// reassigned; the expression-result cache is keyed by it.
#[derive(Debug, PartialEq)]
pub enum Operator {
    /// Full scan of one table, with an optional conjunctive filter list.
    Scan {
        table: Table,
        table_identifier: String,
        predicates: Option<Vec<Expr>>,
        id: usize,
    },
    /// Point lookup by rowid equality, with an optional residual filter list.
    SeekRowid {
        table: Table,
        table_identifier: String,
        rowid_predicate: Expr,
        predicates: Option<Vec<Expr>>,
        id: usize,
    },
    /// Conjunctive filter over its source.
    Filter { source: Box<Operator>, predicates: Vec<Expr>, id: usize },
    /// Join of two subtrees; `outer` marks a left-preserving outer join.
    Join {
        left: Box<Operator>,
        right: Box<Operator>,
        predicates: Option<Vec<Expr>>,
        outer: bool,
        id: usize,
    },
    /// Aggregation over its source, with optional grouping keys.
    Aggregate {
        source: Box<Operator>,
        aggregates: Vec<Aggregate>,
        group_by: Option<Vec<Expr>>,
        id: usize,
    },
    /// Sort of its source by an ordered key list.
    Order { source: Box<Operator>, key: Vec<(Expr, Direction)>, id: usize },
    /// Row-count limit over its source.
    Limit { source: Box<Operator>, limit: usize, id: usize },
    /// Projection of its source onto a column list.
    Projection { source: Box<Operator>, expressions: Vec<ProjectionColumn>, id: usize },
    /// The empty result.
    Nothing,
}

/// The mathematical value of an `Operator`.
pub enum OperatorV {
    Scan {
        table: TableV,
        table_identifier: Seq<char>,
        predicates: Option<Seq<ExprV>>,
        id: usize,
    },
    SeekRowid {
        table: TableV,
        table_identifier: Seq<char>,
        rowid_predicate: ExprV,
        predicates: Option<Seq<ExprV>>,
        id: usize,
    },
    Filter { source: Box<OperatorV>, predicates: Seq<ExprV>, id: usize },
    Join {
        left: Box<OperatorV>,
        right: Box<OperatorV>,
        predicates: Option<Seq<ExprV>>,
        outer: bool,
        id: usize,
    },
    Aggregate {
        source: Box<OperatorV>,
        aggregates: Seq<AggregateV>,
        group_by: Option<Seq<ExprV>>,
        id: usize,
    },
    Order { source: Box<OperatorV>, key: Seq<(ExprV, Direction)>, id: usize },
    Limit { source: Box<OperatorV>, limit: usize, id: usize },
    Projection { source: Box<OperatorV>, expressions: Seq<ProjectionColumnV>, id: usize },
    Nothing,
}

/// A plan: the root operator and the ordered referenced-tables list.
#[derive(Debug, PartialEq)]
pub struct Plan {
    pub root_operator: Operator,
    pub referenced_tables: Vec<(Table, String)>,
}

/// The mathematical value of a `Plan`.
pub struct PlanV {
    pub root_operator: OperatorV,
    pub referenced_tables: Seq<(TableV, Seq<char>)>,
}

pub open spec fn aggregate_view(a: Aggregate) -> AggregateV {
    AggregateV {
        func: a.func@,
        args: exprs_view(a.args@),
        original_expr: expr_view(a.original_expr),
    }
}

pub open spec fn aggregates_view(s: Seq<Aggregate>) -> Seq<AggregateV> {
    Seq::new(s.len(), |i: int| aggregate_view(s[i]))
}

pub open spec fn projection_column_view(c: ProjectionColumn) -> ProjectionColumnV {
    match c {
        ProjectionColumn::Column(e) => ProjectionColumnV::Column(expr_view(e)),
        ProjectionColumn::Star => ProjectionColumnV::Star,
        ProjectionColumn::TableStar(t) => ProjectionColumnV::TableStar(t@),
    }
}

pub open spec fn projection_columns_view(s: Seq<ProjectionColumn>) -> Seq<ProjectionColumnV> {
    Seq::new(s.len(), |i: int| projection_column_view(s[i]))
}

pub open spec fn order_key_view(s: Seq<(Expr, Direction)>) -> Seq<(ExprV, Direction)> {
    Seq::new(s.len(), |i: int| (expr_view(s[i].0), s[i].1))
}

pub open spec fn opt_exprs_view(o: Option<Vec<Expr>>) -> Option<Seq<ExprV>> {
    match o {
        Option::None => Option::None,
        Option::Some(v) => Option::Some(exprs_view(v@)),
    }
}

pub open spec fn operator_view(op: Operator) -> OperatorV
    decreases op,
{
    match op {
        Operator::Scan { table, table_identifier, predicates, id } => OperatorV::Scan {
            table: table_view(table),
            table_identifier: table_identifier@,
            predicates: opt_exprs_view(predicates),
            id,
        },
        Operator::SeekRowid { table, table_identifier, rowid_predicate, predicates, id } => {
            OperatorV::SeekRowid {
                table: table_view(table),
                table_identifier: table_identifier@,
                rowid_predicate: expr_view(rowid_predicate),
                predicates: opt_exprs_view(predicates),
                id,
            }
        },
        Operator::Filter { source, predicates, id } => OperatorV::Filter {
            source: Box::new(operator_view(*source)),
            predicates: exprs_view(predicates@),
            id,
        },
        Operator::Join { left, right, predicates, outer, id } => OperatorV::Join {
            left: Box::new(operator_view(*left)),
            right: Box::new(operator_view(*right)),
            predicates: opt_exprs_view(predicates),
            outer,
            id,
        },
        Operator::Aggregate { source, aggregates, group_by, id } => OperatorV::Aggregate {
            source: Box::new(operator_view(*source)),
            aggregates: aggregates_view(aggregates@),
            group_by: opt_exprs_view(group_by),
            id,
        },
        Operator::Order { source, key, id } => OperatorV::Order {
            source: Box::new(operator_view(*source)),
            key: order_key_view(key@),
            id,
        },
        Operator::Limit { source, limit, id } => OperatorV::Limit {
            source: Box::new(operator_view(*source)),
            limit,
            id,
        },
        Operator::Projection { source, expressions, id } => OperatorV::Projection {
            source: Box::new(operator_view(*source)),
            expressions: projection_columns_view(expressions@),
            id,
        },
        Operator::Nothing => OperatorV::Nothing,
    }
}

pub open spec fn tables_view(s: Seq<(Table, String)>) -> Seq<(TableV, Seq<char>)> {
    Seq::new(s.len(), |i: int| (table_view(s[i].0), s[i].1@))
}

pub open spec fn plan_view(p: Plan) -> PlanV {
    PlanV {
        root_operator: operator_view(p.root_operator),
        referenced_tables: tables_view(p.referenced_tables@),
    }
}

impl View for Aggregate {
    type V = AggregateV;

    open spec fn view(&self) -> AggregateV {
        aggregate_view(*self)
    }
}

impl View for ProjectionColumn {
    type V = ProjectionColumnV;

    open spec fn view(&self) -> ProjectionColumnV {
        projection_column_view(*self)
    }
}

impl View for Operator {
    type V = OperatorV;

    open spec fn view(&self) -> OperatorV {
        operator_view(*self)
    }
}

impl View for Plan {
    type V = PlanV;

    open spec fn view(&self) -> PlanV {
        plan_view(*self)
    }
}

/// The stable id of an operator's value; the empty result has none and
/// reports zero.
pub open spec fn spec_op_id(op: OperatorV) -> usize {
    match op {
        OperatorV::Scan { id, .. } => id,
        OperatorV::SeekRowid { id, .. } => id,
        OperatorV::Filter { id, .. } => id,
        OperatorV::Join { id, .. } => id,
        OperatorV::Aggregate { id, .. } => id,
        OperatorV::Order { id, .. } => id,
        OperatorV::Limit { id, .. } => id,
        OperatorV::Projection { id, .. } => id,
        OperatorV::Nothing => 0,
    }
}

impl Operator {
    /// The stable id of this operator (zero for `Nothing`).
    pub fn id(&self) -> (r: usize)
        ensures
            r == spec_op_id(self@),
    {
        match self {
            Operator::Scan { id, .. } => *id,
            Operator::SeekRowid { id, .. } => *id,
            Operator::Filter { id, .. } => *id,
            Operator::Join { id, .. } => *id,
            Operator::Aggregate { id, .. } => *id,
            Operator::Order { id, .. } => *id,
            Operator::Limit { id, .. } => *id,
            Operator::Projection { id, .. } => *id,
            Operator::Nothing => 0,
        }
    }
}

/// The position of the table with identifier `ident` in the
/// referenced-tables list (by plain string equality, first match).
pub open spec fn table_pos(tables: Seq<(TableV, Seq<char>)>, ident: Seq<char>) -> Option<int>
    decreases tables,
{
    if tables.len() == 0 {
        Option::None
    } else if tables[0].1 == ident {
        Option::Some(0int)
    } else {
        match table_pos(tables.drop_first(), ident) {
            Option::Some(i) => Option::Some(i + 1),
            Option::None => Option::None,
        }
    }
}

proof fn lemma_table_pos_prefix(tables: Seq<(TableV, Seq<char>)>, ident: Seq<char>, i: int)
    requires
        0 <= i <= tables.len(),
        forall|j: int| 0 <= j < i ==> (#[trigger] tables[j]).1 != ident,
    ensures
        i == tables.len() ==> table_pos(tables, ident) is None,
        i < tables.len() && tables[i].1 == ident ==> table_pos(tables, ident) == Option::Some(i),
    decreases i,
{
    if i > 0 {
        lemma_table_pos_prefix(tables.drop_first(), ident, i - 1);
        assert(forall|j: int| 0 <= j < i - 1 ==> tables.drop_first()[j] == tables[j + 1]);
    }
}

/// Find the position of `ident` in the referenced-tables list.
pub fn find_table_index(tables: &Vec<(Table, String)>, ident: &str) -> (r: Option<usize>)
    ensures
        match r {
            Option::Some(i) => {
                &&& table_pos(tables_view(tables@), ident@) == Option::Some(i as int)
                &&& i < tables@.len()
            },
            Option::None => table_pos(tables_view(tables@), ident@) is None,
        },
{
    let ghost tv = tables_view(tables@);
    let n = tables.len();
    let mut i: usize = 0;
    while i < n
        invariant
            i <= n,
            n == tables@.len(),
            tv == tables_view(tables@),
            tv.len() == n,
            forall|j: int| 0 <= j < i ==> (#[trigger] tv[j]).1 != ident@,
        decreases n - i,
    {
        let s: &String = &tables[i].1;
        if s.as_str().unicode_len() == ident.unicode_len() {
            if str_eq(s.as_str(), ident) {
                proof {
                    lemma_table_pos_prefix(tv, ident@, i as int);
                }
                return Option::Some(i);
            }
        }
        i = i + 1;
    }
    proof {
        lemma_table_pos_prefix(tv, ident@, n as int);
    }
    Option::None
}

/// Character-for-character string equality.
pub fn str_eq(a: &str, b: &str) -> (r: bool)
    ensures
        r == (a@ == b@),
{
    let va = crate::schema::chars_of(a);
    let vb = crate::schema::chars_of(b);
    if va.len() != vb.len() {
        return false;
    }
    let n = va.len();
    let mut i: usize = 0;
    while i < n
        invariant
            n == va@.len() == vb@.len(),
            i <= n,
            va@ == a@,
            vb@ == b@,
            forall|k: int| 0 <= k < i ==> va@[k] == vb@[k],
        decreases n - i,
    {
        if va[i] != vb[i] {
            return false;
        }
        i = i + 1;
    }
    proof {
        assert(va@ =~= vb@);
    }
    true
}


/// Whether table `t` has a column named `name` (modulo normalization).
pub open spec fn table_has_column(t: TableV, name: Seq<char>) -> bool {
    find_col(t.columns, normalized(name)) is Some
}

/// The bitmask bit of table position `i`.
pub open spec fn bit_of(i: int) -> u64 {
    if 0 <= i < 64 {
        (1u64 << i)
    } else {
        0
    }
}

/// The position of the first referenced table whose alias equals `name`
/// modulo normalization.
pub open spec fn alias_pos(tables: Seq<(TableV, Seq<char>)>, name: Seq<char>) -> Option<int>
    decreases tables,
{
    if tables.len() == 0 {
        Option::None
    } else if normalized(tables[0].1) == normalized(name) {
        Option::Some(0int)
    } else {
        match alias_pos(tables.drop_first(), name) {
            Option::Some(i) => Option::Some(i + 1),
            Option::None => Option::None,
        }
    }
}

proof fn lemma_alias_pos_prefix(tables: Seq<(TableV, Seq<char>)>, name: Seq<char>, i: int)
    requires
        0 <= i <= tables.len(),
        forall|j: int| 0 <= j < i ==> normalized((#[trigger] tables[j]).1) != normalized(name),
    ensures
        i == tables.len() ==> alias_pos(tables, name) is None,
        i < tables.len() && normalized(tables[i].1) == normalized(name) ==> alias_pos(tables, name)
            == Option::Some(i),
    decreases i,
{
    if i > 0 {
        lemma_alias_pos_prefix(tables.drop_first(), name, i - 1);
        assert(forall|j: int| 0 <= j < i - 1 ==> tables.drop_first()[j] == tables[j + 1]);
    }
}

/// The mask of referenced tables (at positions `from` and beyond) that have
/// a column named `name`: how a bare identifier is attributed to tables.
pub open spec fn id_col_mask(tables: Seq<(TableV, Seq<char>)>, name: Seq<char>, from: int) -> u64
    decreases tables.len() - from,
{
    if from < 0 || from >= tables.len() {
        0u64
    } else {
        (if table_has_column(tables[from].0, name) {
            bit_of(from)
        } else {
            0u64
        }) | id_col_mask(tables, name, from + 1)
    }
}

/// The set of referenced tables an expression depends on, as a bitmask.
/// A bare identifier is charged to every table that has a column of that
/// name; a qualified identifier to the named table. Subquery bodies are
/// opaque to the optimizer and contribute nothing.
pub open spec fn expr_mask(tables: Seq<(TableV, Seq<char>)>, e: ExprV) -> u64
    decreases e,
{
    match e {
        ExprV::Between { lhs, not, start, end } => expr_mask(tables, *lhs) | expr_mask(
            tables,
            *start,
        ) | expr_mask(tables, *end),
        ExprV::Binary(lhs, _, rhs) => expr_mask(tables, *lhs) | expr_mask(tables, *rhs),
        ExprV::Case { base, when_then_pairs, else_expr } => (match base {
            Option::Some(b) => expr_mask(tables, *b),
            Option::None => 0u64,
        }) | pairs_mask(tables, when_then_pairs, 0) | (match else_expr {
            Option::Some(b) => expr_mask(tables, *b),
            Option::None => 0u64,
        }),
        ExprV::Cast { expr, .. } => expr_mask(tables, *expr),
        ExprV::Collate(expr, _) => expr_mask(tables, *expr),
        ExprV::DoublyQualified(_, tbl, _) => match alias_pos(tables, tbl) {
            Option::Some(i) => bit_of(i),
            Option::None => 0u64,
        },
        ExprV::Exists(_) => 0u64,
        ExprV::FunctionCall { args, .. } => match args {
            Option::Some(s) => exprs_mask(tables, s, 0),
            Option::None => 0u64,
        },
        ExprV::FunctionCallStar { .. } => 0u64,
        ExprV::Id(name) => id_col_mask(tables, name, 0),
        ExprV::InList { lhs, not, rhs } => expr_mask(tables, *lhs) | (match rhs {
            Option::Some(s) => exprs_mask(tables, s, 0),
            Option::None => 0u64,
        }),
        ExprV::InSelect { lhs, .. } => expr_mask(tables, *lhs),
        ExprV::IsNull(expr) => expr_mask(tables, *expr),
        ExprV::Like { lhs, not, rhs, escape } => expr_mask(tables, *lhs) | expr_mask(tables, *rhs)
            | (match escape {
            Option::Some(b) => expr_mask(tables, *b),
            Option::None => 0u64,
        }),
        ExprV::Literal(_) => 0u64,
        ExprV::NotNull(expr) => expr_mask(tables, *expr),
        ExprV::Parenthesized(s) => exprs_mask(tables, s, 0),
        ExprV::Qualified(tbl, _) => match alias_pos(tables, tbl) {
            Option::Some(i) => bit_of(i),
            Option::None => 0u64,
        },
        ExprV::Subquery(_) => 0u64,
        ExprV::Unary(_, expr) => expr_mask(tables, *expr),
        ExprV::Variable(_) => 0u64,
    }
}

/// Union of the masks of the expressions of `s` at positions `from` on.
pub open spec fn exprs_mask(tables: Seq<(TableV, Seq<char>)>, s: Seq<ExprV>, from: int) -> u64
    decreases s, s.len() - from,
{
    if from < 0 || from >= s.len() {
        0u64
    } else {
        expr_mask(tables, s[from]) | exprs_mask(tables, s, from + 1)
    }
}

/// Union of the masks of both sides of the pairs of `s` at `from` on.
pub open spec fn pairs_mask(
    tables: Seq<(TableV, Seq<char>)>,
    s: Seq<(ExprV, ExprV)>,
    from: int,
) -> u64
    decreases s, s.len() - from,
{
    if from < 0 || from >= s.len() {
        0u64
    } else {
        expr_mask(tables, s[from].0) | expr_mask(tables, s[from].1) | pairs_mask(
            tables,
            s,
            from + 1,
        )
    }
}

/// The set of referenced tables an operator subtree scans, as a bitmask.
pub open spec fn op_mask(tables: Seq<(TableV, Seq<char>)>, op: OperatorV) -> u64
    decreases op,
{
    match op {
        OperatorV::Scan { table_identifier, .. } => match table_pos(tables, table_identifier) {
            Option::Some(i) => bit_of(i),
            Option::None => 0u64,
        },
        OperatorV::SeekRowid { table_identifier, .. } => match table_pos(
            tables,
            table_identifier,
        ) {
            Option::Some(i) => bit_of(i),
            Option::None => 0u64,
        },
        OperatorV::Filter { source, .. } => op_mask(tables, *source),
        OperatorV::Join { left, right, .. } => op_mask(tables, *left) | op_mask(tables, *right),
        OperatorV::Aggregate { source, .. } => op_mask(tables, *source),
        OperatorV::Order { source, .. } => op_mask(tables, *source),
        OperatorV::Limit { source, .. } => op_mask(tables, *source),
        OperatorV::Projection { source, .. } => op_mask(tables, *source),
        OperatorV::Nothing => 0u64,
    }
}

/// Find the position of the first referenced table whose alias equals
/// `name` modulo normalization.
pub fn find_alias_index(tables: &Vec<(Table, String)>, name: &str) -> (r: Option<usize>)
    ensures
        match r {
            Option::Some(i) => {
                &&& alias_pos(tables_view(tables@), name@) == Option::Some(i as int)
                &&& i < tables@.len()
            },
            Option::None => alias_pos(tables_view(tables@), name@) is None,
        },
{
    let ghost tv = tables_view(tables@);
    let n = tables.len();
    let mut i: usize = 0;
    while i < n
        invariant
            i <= n,
            n == tables@.len(),
            tv == tables_view(tables@),
            tv.len() == n,
            forall|j: int| 0 <= j < i ==> normalized((#[trigger] tv[j]).1) != normalized(name@),
        decreases n - i,
    {
        if ident_eq(tables[i].1.as_str(), name) {
            proof {
                lemma_alias_pos_prefix(tv, name@, i as int);
            }
            return Option::Some(i);
        }
        i = i + 1;
    }
    proof {
        lemma_alias_pos_prefix(tv, name@, n as int);
    }
    Option::None
}

/// The bitmask of referenced tables that a bare identifier `name` could
/// name a column of.
fn id_col_mask_x(tables: &Vec<(Table, String)>, name: &str) -> (r: u64)
    requires
        tables@.len() <= 64,
    ensures
        r == id_col_mask(tables_view(tables@), name@, 0),
{
    let ghost tv = tables_view(tables@);
    let n = tables.len();
    let mut i: usize = 0;
    let mut acc: u64 = 0;
    proof {
        let m0 = id_col_mask(tv, name@, 0);
        assert(0u64 | m0 == m0) by (bit_vector);
    }
    while i < n
        invariant
            i <= n <= 64,
            n == tables@.len(),
            tv == tables_view(tables@),
            tv.len() == n,
            id_col_mask(tv, name@, 0) == acc | id_col_mask(tv, name@, i as int),
        decreases n - i,
    {
        let ghost acc0 = acc;
        let this_bit: u64 = if tables[i].0.get_column(name).is_some() {
            1u64 << (i as u64)
        } else {
            0u64
        };
        proof {
            assert(tv[i as int].0 == table_view(tables@[i as int].0));
            assert(this_bit == if table_has_column(tv[i as int].0, name@) {
                bit_of(i as int)
            } else {
                0u64
            });
            assert(id_col_mask(tv, name@, i as int) == this_bit | id_col_mask(
                tv,
                name@,
                i as int + 1,
            ));
        }
        acc = acc | this_bit;
        proof {
            let rest: u64 = id_col_mask(tv, name@, i as int + 1);
            assert(acc0 | (this_bit | rest) == (acc0 | this_bit) | rest) by (bit_vector);
        }
        i = i + 1;
    }
    proof {
        assert(acc | 0u64 == acc) by (bit_vector);
    }
    acc
}

/// The bitmask of referenced tables that expression `e` depends on.
pub fn get_table_ref_bitmask_for_expr(tables: &Vec<(Table, String)>, e: &Expr) -> (r: u64)
    requires
        tables@.len() <= 64,
    ensures
        r == expr_mask(tables_view(tables@), e@),
    decreases *e, 0int, 0int,
{
    match e {
        Expr::Between { lhs, not, start, end } => {
            let a = get_table_ref_bitmask_for_expr(tables, lhs);
            let b = get_table_ref_bitmask_for_expr(tables, start);
            let c = get_table_ref_bitmask_for_expr(tables, end);
            a | b | c
        },
        Expr::Binary(lhs, _, rhs) => {
            let a = get_table_ref_bitmask_for_expr(tables, lhs);
            let b = get_table_ref_bitmask_for_expr(tables, rhs);
            a | b
        },
        Expr::Case { base, when_then_pairs, else_expr } => {
            let a: u64 = match base {
                Option::Some(b) => get_table_ref_bitmask_for_expr(tables, b),
                Option::None => 0u64,
            };
            let b = pairs_mask_x(tables, when_then_pairs, 0);
            let c: u64 = match else_expr {
                Option::Some(x) => get_table_ref_bitmask_for_expr(tables, x),
                Option::None => 0u64,
            };
            a | b | c
        },
        Expr::Cast { expr, .. } => get_table_ref_bitmask_for_expr(tables, expr),
        Expr::Collate(expr, _) => get_table_ref_bitmask_for_expr(tables, expr),
        Expr::DoublyQualified(_, tbl, _) => match find_alias_index(tables, tbl.as_str()) {
            Option::Some(i) => 1u64 << (i as u64),
            Option::None => 0u64,
        },
        Expr::Exists(_) => 0u64,
        Expr::FunctionCall { args, .. } => match args {
            Option::Some(v) => exprs_mask_x(tables, v, 0),
            Option::None => 0u64,
        },
        Expr::FunctionCallStar { .. } => 0u64,
        Expr::Id(name) => id_col_mask_x(tables, name.as_str()),
        Expr::InList { lhs, not, rhs } => {
            let a = get_table_ref_bitmask_for_expr(tables, lhs);
            let b: u64 = match rhs {
                Option::Some(v) => exprs_mask_x(tables, v, 0),
                Option::None => 0u64,
            };
            a | b
        },
        Expr::InSelect { lhs, .. } => get_table_ref_bitmask_for_expr(tables, lhs),
        Expr::IsNull(expr) => get_table_ref_bitmask_for_expr(tables, expr),
        Expr::Like { lhs, not, rhs, escape } => {
            let a = get_table_ref_bitmask_for_expr(tables, lhs);
            let b = get_table_ref_bitmask_for_expr(tables, rhs);
            let c: u64 = match escape {
                Option::Some(x) => get_table_ref_bitmask_for_expr(tables, x),
                Option::None => 0u64,
            };
            a | b | c
        },
        Expr::Literal(_) => 0u64,
        Expr::NotNull(expr) => get_table_ref_bitmask_for_expr(tables, expr),
        Expr::Parenthesized(v) => exprs_mask_x(tables, v, 0),
        Expr::Qualified(tbl, _) => match find_alias_index(tables, tbl.as_str()) {
            Option::Some(i) => 1u64 << (i as u64),
            Option::None => 0u64,
        },
        Expr::Subquery(_) => 0u64,
        Expr::Unary(_, expr) => get_table_ref_bitmask_for_expr(tables, expr),
        Expr::Variable(_) => 0u64,
    }
}

/// Union of the masks of the expressions of `v` at positions `from` on.
fn exprs_mask_x(tables: &Vec<(Table, String)>, v: &Vec<Expr>, from: usize) -> (r: u64)
    requires
        tables@.len() <= 64,
        from <= v@.len(),
    ensures
        r == exprs_mask(tables_view(tables@), exprs_view(v@), from as int),
    decreases *v, 1int, v@.len() - from,
{
    proof {
        lemma_exprs_view_index(v@);
    }
    if from >= v.len() {
        0u64
    } else {
        let a = get_table_ref_bitmask_for_expr(tables, &v[from]);
        let b = exprs_mask_x(tables, v, from + 1);
        a | b
    }
}

/// Union of the masks of both sides of the pairs of `v` at `from` on.
fn pairs_mask_x(tables: &Vec<(Table, String)>, v: &Vec<(Expr, Expr)>, from: usize) -> (r: u64)
    requires
        tables@.len() <= 64,
        from <= v@.len(),
    ensures
        r == pairs_mask(tables_view(tables@), crate::expr::expr_pairs_view(v@), from as int),
    decreases *v, 1int, v@.len() - from,
{
    proof {
        crate::expr::lemma_expr_pairs_view_index(v@);
    }
    if from >= v.len() {
        0u64
    } else {
        let a = get_table_ref_bitmask_for_expr(tables, &v[from].0);
        let b = get_table_ref_bitmask_for_expr(tables, &v[from].1);
        let c = pairs_mask_x(tables, v, from + 1);
        a | b | c
    }
}

/// The bitmask of referenced tables that an operator subtree scans.
pub fn get_table_ref_bitmask_for_operator(tables: &Vec<(Table, String)>, op: &Operator) -> (r: u64)
    requires
        tables@.len() <= 64,
    ensures
        r == op_mask(tables_view(tables@), op@),
    decreases *op,
{
    match op {
        Operator::Scan { table_identifier, .. } => match find_table_index(
            tables,
            table_identifier.as_str(),
        ) {
            Option::Some(i) => 1u64 << (i as u64),
            Option::None => 0u64,
        },
        Operator::SeekRowid { table_identifier, .. } => match find_table_index(
            tables,
            table_identifier.as_str(),
        ) {
            Option::Some(i) => 1u64 << (i as u64),
            Option::None => 0u64,
        },
        Operator::Filter { source, .. } => get_table_ref_bitmask_for_operator(tables, source),
        Operator::Join { left, right, .. } => {
            let a = get_table_ref_bitmask_for_operator(tables, left);
            let b = get_table_ref_bitmask_for_operator(tables, right);
            a | b
        },
        Operator::Aggregate { source, .. } => get_table_ref_bitmask_for_operator(tables, source),
        Operator::Order { source, .. } => get_table_ref_bitmask_for_operator(tables, source),
        Operator::Limit { source, .. } => get_table_ref_bitmask_for_operator(tables, source),
        Operator::Projection { source, .. } => get_table_ref_bitmask_for_operator(tables, source),
        Operator::Nothing => 0u64,
    }
}

} // verus!

