//! The optimizer's passes over a plan.
//!
//! The pipeline runs predicate pushdown, then constant-condition
//! elimination (which may prove the whole plan empty), then primary-key
//! point-lookup selection, and finally builds the expression-result cache
//! for code generation.
use vstd::prelude::*;

use crate::cache::{
    ExpressionResultCache, ExpressionResultCacheV, MAX_OPERATOR_ID, OPERATOR_ID_MULTIPLIER,
    composite_key, mask_keys_from,
};
use crate::expr::{
    BinaryOperator, Expr, ExprV, Literal, LiteralV, UnaryOperator, expr_eq, expr_view,
};
use crate::numeric::numeric_truth;
use crate::plan::{
    Aggregate, AggregateV, Operator, OperatorV, Plan, PlanV, ProjectionColumn, ProjectionColumnV,
    aggregates_view, find_table_index, projection_columns_view, spec_op_id, tables_view,
};
use crate::schema::{Table, TableV, has_pk_column, normalized};

verus! {

/// The error surface of the optimizer: compile-time query errors.
#[derive(Debug, Clone, PartialEq)]
pub enum OptimizeError {
    /// A bare column name matched a primary key in more than one
    /// referenced table; carries the offending name as written.
    AmbiguousColumnName(String),
}

/// The verdict of constant classification: a predicate that is true of
/// every row, or false of every row.
#[derive(Debug, Clone, Copy, PartialEq, Eq, Structural)]
pub enum ConstantPredicate {
    AlwaysTrue,
    AlwaysFalse,
}

/// `s` with every leading quote character removed.
pub open spec fn trim_lead_quotes(s: Seq<char>) -> Seq<char>
    decreases s,
{
    if s.len() > 0 && s[0] == '\'' {
        trim_lead_quotes(s.drop_first())
    } else {
        s
    }
}

/// `s` with every trailing quote character removed.
pub open spec fn trim_trail_quotes(s: Seq<char>) -> Seq<char>
    decreases s,
{
    if s.len() > 0 && s[s.len() - 1] == '\'' {
        trim_trail_quotes(s.drop_last())
    } else {
        s
    }
}

/// `s` with surrounding quote characters removed, the way a string
/// literal's text is prepared for numeric coercion.
pub open spec fn trim_quotes(s: Seq<char>) -> Seq<char> {
    trim_trail_quotes(trim_lead_quotes(s))
}

/// Constant classification of a literal.
pub open spec fn literal_constant_spec(l: LiteralV) -> Option<ConstantPredicate> {
    match l {
        LiteralV::Null => Option::Some(ConstantPredicate::AlwaysFalse),
        LiteralV::Numeric(s) => match numeric_truth(s) {
            Option::Some(z) => Option::Some(
                if z {
                    ConstantPredicate::AlwaysFalse
                } else {
                    ConstantPredicate::AlwaysTrue
                },
            ),
            Option::None => Option::None,
        },
        LiteralV::Str(s) => match numeric_truth(trim_quotes(s)) {
            Option::Some(z) => Option::Some(
                if z {
                    ConstantPredicate::AlwaysFalse
                } else {
                    ConstantPredicate::AlwaysTrue
                },
            ),
            // A string constant that is not numeric coerces to zero: falsy.
            Option::None => Option::Some(ConstantPredicate::AlwaysFalse),
        },
        _ => Option::None,
    }
}

/// Constant classification of an expression: `Some(AlwaysTrue)` or
/// `Some(AlwaysFalse)` when the expression's truth value is the same for
/// every row, `None` when it is not a compile-time constant.
pub open spec fn check_constant_spec(e: ExprV) -> Option<ConstantPredicate>
    decreases e,
{
    match e {
        ExprV::Literal(l) => literal_constant_spec(l),
        ExprV::Unary(op, inner) => match op {
            UnaryOperator::Not => match check_constant_spec(*inner) {
                Option::Some(ConstantPredicate::AlwaysTrue) => Option::Some(
                    ConstantPredicate::AlwaysFalse,
                ),
                Option::Some(ConstantPredicate::AlwaysFalse) => Option::Some(
                    ConstantPredicate::AlwaysTrue,
                ),
                Option::None => Option::None,
            },
            UnaryOperator::Negative => check_constant_spec(*inner),
            _ => Option::None,
        },
        ExprV::InList { lhs, not, rhs } => {
            let empty = match rhs {
                Option::None => true,
                Option::Some(s) => s.len() == 0,
            };
            if empty {
                Option::Some(
                    if not {
                        ConstantPredicate::AlwaysTrue
                    } else {
                        ConstantPredicate::AlwaysFalse
                    },
                )
            } else {
                Option::None
            }
        },
        ExprV::Binary(lhs, op, rhs) => {
            let l = check_constant_spec(*lhs);
            let r = check_constant_spec(*rhs);
            match op {
                BinaryOperator::And => {
                    if l == Option::Some(ConstantPredicate::AlwaysFalse) || r == Option::Some(
                        ConstantPredicate::AlwaysFalse,
                    ) {
                        Option::Some(ConstantPredicate::AlwaysFalse)
                    } else if l == Option::Some(ConstantPredicate::AlwaysTrue) && r
                        == Option::Some(ConstantPredicate::AlwaysTrue) {
                        Option::Some(ConstantPredicate::AlwaysTrue)
                    } else {
                        Option::None
                    }
                },
                BinaryOperator::Or => {
                    if l == Option::Some(ConstantPredicate::AlwaysTrue) || r == Option::Some(
                        ConstantPredicate::AlwaysTrue,
                    ) {
                        Option::Some(ConstantPredicate::AlwaysTrue)
                    } else if l == Option::Some(ConstantPredicate::AlwaysFalse) && r
                        == Option::Some(ConstantPredicate::AlwaysFalse) {
                        Option::Some(ConstantPredicate::AlwaysFalse)
                    } else {
                        Option::None
                    }
                },
                _ => Option::None,
            }
        },
        _ => Option::None,
    }
}

/// Whether an expression is classified as true of every row.
pub open spec fn always_true(e: ExprV) -> bool {
    check_constant_spec(e) == Option::Some(ConstantPredicate::AlwaysTrue)
}

/// Whether an expression is classified as false of every row.
pub open spec fn always_false(e: ExprV) -> bool {
    check_constant_spec(e) == Option::Some(ConstantPredicate::AlwaysFalse)
}

/// The first referenced-table position at or after `from` whose table has
/// a primary-key column named `name`.
pub open spec fn pk_first(
    tables: Seq<(TableV, Seq<char>)>,
    name: Seq<char>,
    from: int,
) -> Option<int>
    decreases tables.len() - from,
{
    if from < 0 || from >= tables.len() {
        Option::None
    } else if has_pk_column(tables[from].0, name) {
        Option::Some(from)
    } else {
        pk_first(tables, name, from + 1)
    }
}

/// The first referenced-table position whose alias is `alias` (modulo
/// normalization) and whose table has a primary-key column named `name`.
pub open spec fn pk_qualified(
    tables: Seq<(TableV, Seq<char>)>,
    alias: Seq<char>,
    name: Seq<char>,
    from: int,
) -> Option<int>
    decreases tables.len() - from,
{
    if from < 0 || from >= tables.len() {
        Option::None
    } else if normalized(tables[from].1) == normalized(alias) && has_pk_column(
        tables[from].0,
        name,
    ) {
        Option::Some(from)
    } else {
        pk_qualified(tables, alias, name, from + 1)
    }
}

/// Primary-key resolution of an expression: `Ok(Some(i))` when the
/// expression names the primary key of referenced table `i`, `Ok(None)`
/// when it names no table's primary key, and `Err(name)` when a bare name
/// matches a primary key in more than one table.
pub open spec fn check_primary_key_spec(
    e: ExprV,
    tables: Seq<(TableV, Seq<char>)>,
) -> Result<Option<int>, Seq<char>> {
    match e {
        ExprV::Id(name) => match pk_first(tables, name, 0) {
            Option::None => Result::Ok(Option::None),
            Option::Some(i) => match pk_first(tables, name, i + 1) {
                Option::None => Result::Ok(Option::Some(i)),
                Option::Some(_) => Result::Err(name),
            },
        },
        ExprV::Qualified(alias, name) => Result::Ok(pk_qualified(tables, alias, name, 0)),
        _ => Result::Ok(Option::None),
    }
}

/// Whether the executable primary-key result matches the specified one.
pub open spec fn pk_result_matches(
    r: Result<Option<usize>, OptimizeError>,
    s: Result<Option<int>, Seq<char>>,
) -> bool {
    match (r, s) {
        (Result::Ok(Option::None), Result::Ok(Option::None)) => true,
        (Result::Ok(Option::Some(i)), Result::Ok(Option::Some(j))) => i as int == j,
        (Result::Err(OptimizeError::AmbiguousColumnName(n)), Result::Err(m)) => n@ == m,
        _ => false,
    }
}


/// The result of constant-condition elimination on a subtree.
#[derive(Debug, Clone, Copy, PartialEq, Eq, Structural)]
pub enum ConstantConditionEliminationResult {
    Continue,
    ImpossibleCondition,
}

/// One conjunctive predicate list after elimination: trivially true
/// entries are dropped in order until a trivially false entry is found;
/// the first such entry (unless `outer` tolerates it) poisons the whole
/// conjunction and scanning stops there. Returns the list as it stands at
/// that point and whether it was poisoned.
pub open spec fn elim_list(ps: Seq<ExprV>, outer: bool) -> (Seq<ExprV>, bool)
    decreases ps,
{
    if ps.len() == 0 {
        (ps, false)
    } else if always_true(ps[0]) {
        elim_list(ps.drop_first(), outer)
    } else if always_false(ps[0]) && !outer {
        (ps, true)
    } else {
        let (rest, poison) = elim_list(ps.drop_first(), outer);
        (seq![ps[0]] + rest, poison)
    }
}

/// Constant-condition elimination over an operator subtree, post-order:
/// the rewritten subtree, and whether it was proven to yield no rows.
pub open spec fn elim_op(op: OperatorV) -> (OperatorV, bool)
    decreases op,
{
    match op {
        OperatorV::Filter { source, predicates, id } => {
            let (ps2, poison) = elim_list(predicates, false);
            if poison {
                (OperatorV::Filter { source, predicates: ps2, id }, true)
            } else if ps2.len() == 0 {
                // The filter vanishes; its source is eliminated in its place
                // and the result stands where the filter stood.
                (elim_op(*source).0, false)
            } else {
                (
                    OperatorV::Filter {
                        source: Box::new(elim_op(*source).0),
                        predicates: ps2,
                        id,
                    },
                    false,
                )
            }
        },
        OperatorV::Join { left, right, predicates, outer, id } => {
            let (l2, li) = elim_op(*left);
            if li {
                (OperatorV::Join { left: Box::new(l2), right, predicates, outer, id }, true)
            } else {
                let (r2, ri) = elim_op(*right);
                if ri && !outer {
                    (
                        OperatorV::Join {
                            left: Box::new(l2),
                            right: Box::new(r2),
                            predicates,
                            outer,
                            id,
                        },
                        true,
                    )
                } else {
                    match predicates {
                        Option::None => (
                            OperatorV::Join {
                                left: Box::new(l2),
                                right: Box::new(r2),
                                predicates: Option::None,
                                outer,
                                id,
                            },
                            false,
                        ),
                        Option::Some(ps) => {
                            let (ps2, poison) = elim_list(ps, outer);
                            (
                                OperatorV::Join {
                                    left: Box::new(l2),
                                    right: Box::new(r2),
                                    predicates: Option::Some(ps2),
                                    outer,
                                    id,
                                },
                                poison,
                            )
                        },
                    }
                }
            }
        },
        OperatorV::Aggregate { source, aggregates, group_by, id } => {
            let (s2, si) = elim_op(*source);
            // An aggregate over no rows can still produce a row, so an
            // impossible source empties the input but keeps the aggregate.
            if si {
                (
                    OperatorV::Aggregate {
                        source: Box::new(OperatorV::Nothing),
                        aggregates,
                        group_by,
                        id,
                    },
                    false,
                )
            } else {
                (
                    OperatorV::Aggregate { source: Box::new(s2), aggregates, group_by, id },
                    false,
                )
            }
        },
        OperatorV::SeekRowid { table, table_identifier, rowid_predicate, predicates, id } => {
            let (ps2, poison) = match predicates {
                Option::Some(ps) => {
                    let (a, b) = elim_list(ps, false);
                    (Option::Some(a), b)
                },
                Option::None => (Option::None, false),
            };
            let out = OperatorV::SeekRowid {
                table,
                table_identifier,
                rowid_predicate,
                predicates: ps2,
                id,
            };
            if poison {
                (out, true)
            } else if always_false(rowid_predicate) {
                (out, true)
            } else {
                (out, false)
            }
        },
        OperatorV::Limit { source, limit, id } => {
            let (s2, si) = elim_op(*source);
            if si {
                (OperatorV::Nothing, true)
            } else {
                (OperatorV::Limit { source: Box::new(s2), limit, id }, false)
            }
        },
        OperatorV::Order { source, key, id } => {
            let (s2, si) = elim_op(*source);
            if si {
                (OperatorV::Nothing, true)
            } else {
                (OperatorV::Order { source: Box::new(s2), key, id }, false)
            }
        },
        OperatorV::Projection { source, expressions, id } => {
            let (s2, si) = elim_op(*source);
            if si {
                (OperatorV::Nothing, true)
            } else {
                (OperatorV::Projection { source: Box::new(s2), expressions, id }, false)
            }
        },
        OperatorV::Scan { table, table_identifier, predicates, id } => {
            match predicates {
                Option::None => (
                    OperatorV::Scan { table, table_identifier, predicates: Option::None, id },
                    false,
                ),
                Option::Some(ps) => {
                    let (ps2, poison) = elim_list(ps, false);
                    if poison {
                        (
                            OperatorV::Scan {
                                table,
                                table_identifier,
                                predicates: Option::Some(ps2),
                                id,
                            },
                            true,
                        )
                    } else {
                        (
                            OperatorV::Scan {
                                table,
                                table_identifier,
                                predicates: if ps2.len() == 0 {
                                    Option::None
                                } else {
                                    Option::Some(ps2)
                                },
                                id,
                            },
                            false,
                        )
                    }
                },
            }
        },
        OperatorV::Nothing => (OperatorV::Nothing, false),
    }
}

/// Apply `elim_list` to one owned predicate list.
fn elim_predicate_vec(v: Vec<Expr>, outer: bool) -> (r: (Vec<Expr>, bool))
    ensures
        crate::expr::exprs_view(r.0@) == elim_list(crate::expr::exprs_view(v@), outer).0,
        r.1 == elim_list(crate::expr::exprs_view(v@), outer).1,
    decreases v@.len(),
{
    let ghost s = crate::expr::exprs_view(v@);
    proof {
        crate::expr::lemma_exprs_view_index(v@);
        if v@.len() > 0 {
            crate::expr::lemma_exprs_view_index(v@.drop_first());
            assert(s.drop_first() =~= crate::expr::exprs_view(v@.drop_first()));
        }
    }
    let ghost v0 = v@;
    let mut v = v;
    if v.len() == 0 {
        return (v, false);
    }
    let c = check_constant_x(&v[0]);
    if matches!(c, Option::Some(ConstantPredicate::AlwaysTrue)) {
        let _dropped = v.remove(0);
        proof {
            assert(v@ =~= v0.drop_first());
        }
        elim_predicate_vec(v, outer)
    } else if matches!(c, Option::Some(ConstantPredicate::AlwaysFalse)) && !outer {
        (v, true)
    } else {
        let p = v.remove(0);
        proof {
            assert(v@ =~= v0.drop_first());
        }
        let (mut rest, poison) = elim_predicate_vec(v, outer);
        let ghost rest0 = rest@;
        rest.insert(0, p);
        proof {
            crate::expr::lemma_exprs_view_index(rest0);
            crate::expr::lemma_exprs_view_index(rest@);
            assert(rest@ =~= seq![p] + rest0);
            let target = seq![s[0]] + elim_list(s.drop_first(), outer).0;
            assert(crate::expr::exprs_view(rest@).len() == target.len());
            assert forall|i: int| 0 <= i < rest@.len() implies crate::expr::exprs_view(rest@)[i]
                == target[i] by {
                if i == 0 {
                    assert(rest@[0] == p);
                    assert(p == v0[0]);
                } else {
                    assert(rest@[i] == rest0[i - 1]);
                    assert(crate::expr::exprs_view(rest0)[i - 1] == expr_view(rest0[i - 1]));
                }
            }
            assert(crate::expr::exprs_view(rest@) =~= target);
        }
        (rest, poison)
    }
}

/// Expressions the optimizer can interrogate: constant classification and
/// primary-key recognition.
pub trait Optimizable {
    /// Constant classification of this expression's value.
    spec fn constant_spec(&self) -> Option<ConstantPredicate>;

    /// Primary-key resolution of this expression's value.
    spec fn primary_key_spec(&self, tables: Seq<(TableV, Seq<char>)>) -> Result<
        Option<int>,
        Seq<char>,
    >;

    /// Classify this expression as a constant condition, if it is one.
    fn check_constant(&self) -> (r: Result<Option<ConstantPredicate>, OptimizeError>)
        ensures
            r == Result::<Option<ConstantPredicate>, OptimizeError>::Ok(self.constant_spec()),
    ;

    /// Whether this expression is trivially true of every row.
    fn is_always_true(&self) -> (r: Result<bool, OptimizeError>)
        ensures
            r == Result::<bool, OptimizeError>::Ok(
                self.constant_spec() == Option::Some(ConstantPredicate::AlwaysTrue),
            ),
    ;

    /// Whether this expression is trivially false of every row.
    fn is_always_false(&self) -> (r: Result<bool, OptimizeError>)
        ensures
            r == Result::<bool, OptimizeError>::Ok(
                self.constant_spec() == Option::Some(ConstantPredicate::AlwaysFalse),
            ),
    ;

    /// If this expression names a table's primary-key column, return that
    /// table's position in the referenced-tables list.
    fn check_primary_key(&self, referenced_tables: &Vec<(Table, String)>) -> (r: Result<
        Option<usize>,
        OptimizeError,
    >)
        ensures
            pk_result_matches(r, self.primary_key_spec(tables_view(referenced_tables@))),
    ;
}

/// Classify a string literal's text: strip surrounding quotes, then apply
/// numeric coercion; a non-numeric string constant is falsy.
fn classify_string_literal(s: &str) -> (r: Option<bool>)
    ensures
        r == numeric_truth(trim_quotes(s@)),
{
    let v = crate::schema::chars_of(s);
    let n = v.len();
    let mut a: usize = 0;
    while a < n && v[a] == '\''
        invariant
            a <= n,
            n == s@.len(),
            v@ == s@,
            forall|k: int| 0 <= k < a ==> s@[k] == '\'',
        decreases n - a,
    {
        a = a + 1;
    }
    let mut b: usize = n;
    while b > a && v[b - 1] == '\''
        invariant
            a <= b <= n,
            n == s@.len(),
            v@ == s@,
            forall|k: int| 0 <= k < a ==> s@[k] == '\'',
            forall|k: int| b <= k < n ==> s@[k] == '\'',
        decreases b,
    {
        b = b - 1;
    }
    proof {
        lemma_trim_lead(s@, a as int);
        let t = s@.subrange(a as int, n as int);
        lemma_trim_trail(t, b - a);
        assert(t.subrange(0, b - a) =~= s@.subrange(a as int, b as int));
    }
    let w = s.substring_char(a, b);
    crate::numeric::classify_numeric(w)
}

/// Leading quotes end where the first other character stands.
proof fn lemma_trim_lead(s: Seq<char>, a: int)
    requires
        0 <= a <= s.len(),
        forall|k: int| 0 <= k < a ==> s[k] == '\'',
        a < s.len() ==> s[a] != '\'',
    ensures
        trim_lead_quotes(s) == s.subrange(a, s.len() as int),
    decreases a,
{
    if a > 0 {
        lemma_trim_lead(s.drop_first(), a - 1);
        assert(s.drop_first().subrange(a - 1, s.drop_first().len() as int) =~= s.subrange(
            a,
            s.len() as int,
        ));
    } else {
        if s.len() > 0 && s[0] == '\'' {
        } else {
            assert(s.subrange(0, s.len() as int) =~= s);
        }
    }
}

/// Trailing quotes end where the last other character stands.
proof fn lemma_trim_trail(t: Seq<char>, b: int)
    requires
        0 <= b <= t.len(),
        forall|k: int| b <= k < t.len() ==> t[k] == '\'',
        b > 0 ==> t[b - 1] != '\'',
    ensures
        trim_trail_quotes(t) == t.subrange(0, b),
    decreases t.len() - b,
{
    if b < t.len() {
        lemma_trim_trail(t.drop_last(), b);
        assert(t.drop_last().subrange(0, b) =~= t.subrange(0, b));
    } else {
        if t.len() > 0 && t[t.len() - 1] == '\'' {
        } else {
            assert(t.subrange(0, t.len() as int) =~= t);
        }
    }
}

impl Optimizable for Expr {
    open spec fn constant_spec(&self) -> Option<ConstantPredicate> {
        check_constant_spec((*self)@)
    }

    open spec fn primary_key_spec(&self, tables: Seq<(TableV, Seq<char>)>) -> Result<
        Option<int>,
        Seq<char>,
    > {
        check_primary_key_spec((*self)@, tables)
    }

    fn check_constant(&self) -> (r: Result<Option<ConstantPredicate>, OptimizeError>) {
        Result::Ok(check_constant_x(self))
    }

    fn is_always_true(&self) -> (r: Result<bool, OptimizeError>) {
        match self.check_constant() {
            Result::Ok(c) => Result::Ok(
                matches!(c, Option::Some(ConstantPredicate::AlwaysTrue)),
            ),
            Result::Err(e) => Result::Err(e),
        }
    }

    fn is_always_false(&self) -> (r: Result<bool, OptimizeError>) {
        match self.check_constant() {
            Result::Ok(c) => Result::Ok(
                matches!(c, Option::Some(ConstantPredicate::AlwaysFalse)),
            ),
            Result::Err(e) => Result::Err(e),
        }
    }

    #[verifier::loop_isolation(false)]
    fn check_primary_key(&self, referenced_tables: &Vec<(Table, String)>) -> (r: Result<
        Option<usize>,
        OptimizeError,
    >) {
        let ghost tv = tables_view(referenced_tables@);
        match self {
            Expr::Id(name) => {
                let n = referenced_tables.len();
                let mut i: usize = 0;
                let mut first: Option<usize> = Option::None;
                while i < n
                    invariant
                        i <= n,
                        n == referenced_tables@.len(),
                        tv == tables_view(referenced_tables@),
                        tv.len() == n,
                        match first {
                            Option::None => pk_first(tv, name@, 0) == pk_first(tv, name@, i as int),
                            Option::Some(f) => {
                                &&& pk_first(tv, name@, 0) == Option::Some(f as int)
                                &&& f < i
                                &&& pk_first(tv, name@, f + 1) == pk_first(tv, name@, i as int)
                            },
                        },
                    decreases n - i,
                {
                    let pk = referenced_tables[i].0.has_primary_key_column(name.as_str());
                    proof {
                        assert(tv[i as int].0 == crate::schema::table_view(
                            referenced_tables@[i as int].0,
                        ));
                    }
                    if pk {
                        match first {
                            Option::Some(f) => {
                                proof {
                                    assert(pk_first(tv, name@, i as int) == Option::Some(
                                        i as int,
                                    ));
                                    assert(pk_first(tv, name@, f as int + 1) == Option::Some(
                                        i as int,
                                    ));
                                }
                                return Result::Err(
                                    OptimizeError::AmbiguousColumnName(name.clone()),
                                );
                            },
                            Option::None => {
                                first = Option::Some(i);
                            },
                        }
                    }
                    i = i + 1;
                }
                match first {
                    Option::None => Result::Ok(Option::None),
                    Option::Some(f) => Result::Ok(Option::Some(f)),
                }
            },
            Expr::Qualified(alias, name) => {
                let n = referenced_tables.len();
                let mut i: usize = 0;
                while i < n
                    invariant
                        i <= n,
                        n == referenced_tables@.len(),
                        tv == tables_view(referenced_tables@),
                        tv.len() == n,
                        pk_qualified(tv, alias@, name@, 0) == pk_qualified(
                            tv,
                            alias@,
                            name@,
                            i as int,
                        ),
                    decreases n - i,
                {
                    proof {
                        assert(tv[i as int].0 == crate::schema::table_view(
                            referenced_tables@[i as int].0,
                        ));
                        assert(tv[i as int].1 == referenced_tables@[i as int].1@);
                    }
                    if crate::schema::ident_eq(referenced_tables[i].1.as_str(), alias.as_str())
                        && referenced_tables[i].0.has_primary_key_column(name.as_str()) {
                        return Result::Ok(Option::Some(i));
                    }
                    i = i + 1;
                }
                Result::Ok(Option::None)
            },
            _ => Result::Ok(Option::None),
        }
    }
}


/// Classify an expression as a constant condition, if it is one.
pub fn check_constant_x(e: &Expr) -> (r: Option<ConstantPredicate>)
    ensures
        r == check_constant_spec(e@),
    decreases *e,
{
    match e {
        Expr::Literal(l) => match l {
            Literal::Null => Option::Some(ConstantPredicate::AlwaysFalse),
            Literal::Numeric(s) => match crate::numeric::classify_numeric(s.as_str()) {
                Option::Some(z) => Option::Some(
                    if z {
                        ConstantPredicate::AlwaysFalse
                    } else {
                        ConstantPredicate::AlwaysTrue
                    },
                ),
                Option::None => Option::None,
            },
            Literal::Str(s) => match classify_string_literal(s.as_str()) {
                Option::Some(z) => Option::Some(
                    if z {
                        ConstantPredicate::AlwaysFalse
                    } else {
                        ConstantPredicate::AlwaysTrue
                    },
                ),
                Option::None => Option::Some(ConstantPredicate::AlwaysFalse),
            },
            _ => Option::None,
        },
        Expr::Unary(op, inner) => match op {
            UnaryOperator::Not => match check_constant_x(inner) {
                Option::Some(ConstantPredicate::AlwaysTrue) => Option::Some(
                    ConstantPredicate::AlwaysFalse,
                ),
                Option::Some(ConstantPredicate::AlwaysFalse) => Option::Some(
                    ConstantPredicate::AlwaysTrue,
                ),
                Option::None => Option::None,
            },
            UnaryOperator::Negative => check_constant_x(inner),
            _ => Option::None,
        },
        Expr::InList { lhs: _, not, rhs } => {
            let empty = match rhs {
                Option::None => true,
                Option::Some(v) => {
                    proof {
                        crate::expr::lemma_exprs_view_index(v@);
                    }
                    v.len() == 0
                },
            };
            if empty {
                Option::Some(
                    if *not {
                        ConstantPredicate::AlwaysTrue
                    } else {
                        ConstantPredicate::AlwaysFalse
                    },
                )
            } else {
                Option::None
            }
        },
        Expr::Binary(lhs, op, rhs) => {
            let l = check_constant_x(lhs);
            let r = check_constant_x(rhs);
            match op {
                BinaryOperator::And => {
                    let lf = matches!(l, Option::Some(ConstantPredicate::AlwaysFalse));
                    let rf = matches!(r, Option::Some(ConstantPredicate::AlwaysFalse));
                    let lt = matches!(l, Option::Some(ConstantPredicate::AlwaysTrue));
                    let rt = matches!(r, Option::Some(ConstantPredicate::AlwaysTrue));
                    if lf || rf {
                        Option::Some(ConstantPredicate::AlwaysFalse)
                    } else if lt && rt {
                        Option::Some(ConstantPredicate::AlwaysTrue)
                    } else {
                        Option::None
                    }
                },
                BinaryOperator::Or => {
                    let lf = matches!(l, Option::Some(ConstantPredicate::AlwaysFalse));
                    let rf = matches!(r, Option::Some(ConstantPredicate::AlwaysFalse));
                    let lt = matches!(l, Option::Some(ConstantPredicate::AlwaysTrue));
                    let rt = matches!(r, Option::Some(ConstantPredicate::AlwaysTrue));
                    if lt || rt {
                        Option::Some(ConstantPredicate::AlwaysTrue)
                    } else if lf && rf {
                        Option::Some(ConstantPredicate::AlwaysFalse)
                    } else {
                        Option::None
                    }
                },
                _ => Option::None,
            }
        },
        _ => Option::None,
    }
}


/// Remove trivially true predicates everywhere and collapse subtrees whose
/// conditions are trivially false; reports `ImpossibleCondition` when the
/// whole subtree is proven to yield no rows.
pub fn eliminate_constants(op: Operator) -> (r: (Operator, ConstantConditionEliminationResult))
    ensures
        r.0@ == elim_op(op@).0,
        (r.1 == ConstantConditionEliminationResult::ImpossibleCondition) == elim_op(op@).1,
    decreases op,
{
    let ghost opv = op@;
    match op {
        Operator::Filter { source, predicates, id } => {
            let (ps2, poison) = elim_predicate_vec(predicates, false);
            if poison {
                (
                    Operator::Filter { source, predicates: ps2, id },
                    ConstantConditionEliminationResult::ImpossibleCondition,
                )
            } else if ps2.len() == 0 {
                proof {
                    crate::expr::lemma_exprs_view_index(ps2@);
                }
                let (s2, _si) = eliminate_constants(*source);
                (s2, ConstantConditionEliminationResult::Continue)
            } else {
                proof {
                    crate::expr::lemma_exprs_view_index(ps2@);
                }
                let (s2, _si) = eliminate_constants(*source);
                (
                    Operator::Filter { source: Box::new(s2), predicates: ps2, id },
                    ConstantConditionEliminationResult::Continue,
                )
            }
        },
        Operator::Join { left, right, predicates, outer, id } => {
            let (l2, li) = eliminate_constants(*left);
            if matches!(li, ConstantConditionEliminationResult::ImpossibleCondition) {
                return (
                    Operator::Join { left: Box::new(l2), right, predicates, outer, id },
                    ConstantConditionEliminationResult::ImpossibleCondition,
                );
            }
            let (r2, ri) = eliminate_constants(*right);
            if matches!(ri, ConstantConditionEliminationResult::ImpossibleCondition) && !outer {
                return (
                    Operator::Join {
                        left: Box::new(l2),
                        right: Box::new(r2),
                        predicates,
                        outer,
                        id,
                    },
                    ConstantConditionEliminationResult::ImpossibleCondition,
                );
            }
            match predicates {
                Option::None => (
                    Operator::Join {
                        left: Box::new(l2),
                        right: Box::new(r2),
                        predicates: Option::None,
                        outer,
                        id,
                    },
                    ConstantConditionEliminationResult::Continue,
                ),
                Option::Some(ps) => {
                    let (ps2, poison) = elim_predicate_vec(ps, outer);
                    (
                        Operator::Join {
                            left: Box::new(l2),
                            right: Box::new(r2),
                            predicates: Option::Some(ps2),
                            outer,
                            id,
                        },
                        if poison {
                            ConstantConditionEliminationResult::ImpossibleCondition
                        } else {
                            ConstantConditionEliminationResult::Continue
                        },
                    )
                },
            }
        },
        Operator::Aggregate { source, aggregates, group_by, id } => {
            let ghost srcv = (*source)@;
            proof {
                assert(opv == OperatorV::Aggregate {
                    source: Box::new(srcv),
                    aggregates: crate::plan::aggregates_view(aggregates@),
                    group_by: crate::plan::opt_exprs_view(group_by),
                    id,
                });
            }
            let (s2, si) = eliminate_constants(*source);
            // An aggregate over zero input rows can still produce a row
            // (e.g. a count), so only the source is emptied.
            if matches!(si, ConstantConditionEliminationResult::ImpossibleCondition) {
                (
                    Operator::Aggregate {
                        source: Box::new(Operator::Nothing),
                        aggregates,
                        group_by,
                        id,
                    },
                    ConstantConditionEliminationResult::Continue,
                )
            } else {
                (
                    Operator::Aggregate { source: Box::new(s2), aggregates, group_by, id },
                    ConstantConditionEliminationResult::Continue,
                )
            }
        },
        Operator::SeekRowid { table, table_identifier, rowid_predicate, predicates, id } => {
            let (ps2, poison) = match predicates {
                Option::Some(ps) => {
                    let (a, b) = elim_predicate_vec(ps, false);
                    (Option::Some(a), b)
                },
                Option::None => (Option::None, false),
            };
            let c = check_constant_x(&rowid_predicate);
            let rowid_false = matches!(c, Option::Some(ConstantPredicate::AlwaysFalse));
            let out = Operator::SeekRowid {
                table,
                table_identifier,
                rowid_predicate,
                predicates: ps2,
                id,
            };
            (
                out,
                if poison || rowid_false {
                    ConstantConditionEliminationResult::ImpossibleCondition
                } else {
                    ConstantConditionEliminationResult::Continue
                },
            )
        },
        Operator::Limit { source, limit, id } => {
            let (s2, si) = eliminate_constants(*source);
            if matches!(si, ConstantConditionEliminationResult::ImpossibleCondition) {
                (Operator::Nothing, ConstantConditionEliminationResult::ImpossibleCondition)
            } else {
                (
                    Operator::Limit { source: Box::new(s2), limit, id },
                    ConstantConditionEliminationResult::Continue,
                )
            }
        },
        Operator::Order { source, key, id } => {
            let (s2, si) = eliminate_constants(*source);
            if matches!(si, ConstantConditionEliminationResult::ImpossibleCondition) {
                (Operator::Nothing, ConstantConditionEliminationResult::ImpossibleCondition)
            } else {
                (
                    Operator::Order { source: Box::new(s2), key, id },
                    ConstantConditionEliminationResult::Continue,
                )
            }
        },
        Operator::Projection { source, expressions, id } => {
            let (s2, si) = eliminate_constants(*source);
            if matches!(si, ConstantConditionEliminationResult::ImpossibleCondition) {
                (Operator::Nothing, ConstantConditionEliminationResult::ImpossibleCondition)
            } else {
                (
                    Operator::Projection { source: Box::new(s2), expressions, id },
                    ConstantConditionEliminationResult::Continue,
                )
            }
        },
        Operator::Scan { table, table_identifier, predicates, id } => {
            match predicates {
                Option::None => (
                    Operator::Scan { table, table_identifier, predicates: Option::None, id },
                    ConstantConditionEliminationResult::Continue,
                ),
                Option::Some(ps) => {
                    let (ps2, poison) = elim_predicate_vec(ps, false);
                    if poison {
                        (
                            Operator::Scan {
                                table,
                                table_identifier,
                                predicates: Option::Some(ps2),
                                id,
                            },
                            ConstantConditionEliminationResult::ImpossibleCondition,
                        )
                    } else {
                        proof {
                            crate::expr::lemma_exprs_view_index(ps2@);
                        }
                        let kept: Option<Vec<Expr>> = if ps2.len() == 0 {
                            Option::None
                        } else {
                            Option::Some(ps2)
                        };
                        (
                            Operator::Scan { table, table_identifier, predicates: kept, id },
                            ConstantConditionEliminationResult::Continue,
                        )
                    }
                },
            }
        },
        Operator::Nothing => (Operator::Nothing, ConstantConditionEliminationResult::Continue),
    }
}


/// The view of an optional predicate in transit.
pub open spec fn opt_expr_view(o: Option<Expr>) -> Option<ExprV> {
    match o {
        Option::None => Option::None,
        Option::Some(e) => Option::Some(expr_view(e)),
    }
}

/// Whether a scan at table position `ti` may absorb a predicate with
/// table-reference mask `mask`: the predicate may depend on this table and
/// tables joined to its left (lower bits), never on a table joined later.
pub open spec fn scan_absorbs(mask: u64, ti: int) -> bool {
    (mask >> (ti as u64)) <= 1
}

/// Push one predicate as deep as possible into `op`. Returns the
/// rewritten operator and `None` when the predicate was absorbed, or the
/// predicate handed back for the caller to keep.
pub open spec fn push_pred_spec(
    op: OperatorV,
    p: ExprV,
    tables: Seq<(TableV, Seq<char>)>,
) -> (OperatorV, Option<ExprV>)
    decreases op,
{
    match op {
        OperatorV::Scan { table, table_identifier, predicates, id } => {
            match crate::plan::table_pos(tables, table_identifier) {
                Option::None => (op, Option::Some(p)),
                Option::Some(ti) => {
                    let mask = crate::plan::expr_mask(tables, p);
                    if !scan_absorbs(mask, ti) {
                        (op, Option::Some(p))
                    } else {
                        (
                            OperatorV::Scan {
                                table,
                                table_identifier,
                                predicates: match predicates {
                                    Option::None => Option::Some(seq![p]),
                                    Option::Some(ps) => Option::Some(ps.push(p)),
                                },
                                id,
                            },
                            Option::None,
                        )
                    }
                },
            }
        },
        OperatorV::Filter { source, predicates, id } => {
            let (s2, r) = push_pred_spec(*source, p, tables);
            match r {
                Option::None => (
                    OperatorV::Filter { source: Box::new(s2), predicates, id },
                    Option::None,
                ),
                Option::Some(p2) => (
                    OperatorV::Filter { source: Box::new(s2), predicates: predicates.push(p2), id },
                    Option::None,
                ),
            }
        },
        OperatorV::Join { left, right, predicates, outer, id } => {
            let (l2, lr) = push_pred_spec(*left, p, tables);
            match lr {
                Option::None => (
                    OperatorV::Join { left: Box::new(l2), right, predicates, outer, id },
                    Option::None,
                ),
                Option::Some(p1) => {
                    let (r2, rr) = push_pred_spec(*right, p1, tables);
                    match rr {
                        Option::None => (
                            OperatorV::Join {
                                left: Box::new(l2),
                                right: Box::new(r2),
                                predicates,
                                outer,
                                id,
                            },
                            Option::None,
                        ),
                        Option::Some(p2) => {
                            if outer {
                                (
                                    OperatorV::Join {
                                        left: Box::new(l2),
                                        right: Box::new(r2),
                                        predicates,
                                        outer,
                                        id,
                                    },
                                    Option::Some(p2),
                                )
                            } else {
                                let pm = crate::plan::expr_mask(tables, p2);
                                let lm = crate::plan::op_mask(tables, l2);
                                let rm = crate::plan::op_mask(tables, r2);
                                if pm & lm == 0 || pm & rm == 0 {
                                    (
                                        OperatorV::Join {
                                            left: Box::new(l2),
                                            right: Box::new(r2),
                                            predicates,
                                            outer,
                                            id,
                                        },
                                        Option::Some(p2),
                                    )
                                } else {
                                    (
                                        OperatorV::Join {
                                            left: Box::new(l2),
                                            right: Box::new(r2),
                                            predicates: match predicates {
                                                Option::None => Option::Some(seq![p2]),
                                                Option::Some(ps) => Option::Some(ps.push(p2)),
                                            },
                                            outer,
                                            id,
                                        },
                                        Option::None,
                                    )
                                }
                            }
                        },
                    }
                },
            }
        },
        OperatorV::Aggregate { source, aggregates, group_by, id } => {
            let (s2, r) = push_pred_spec(*source, p, tables);
            (OperatorV::Aggregate { source: Box::new(s2), aggregates, group_by, id }, r)
        },
        OperatorV::SeekRowid { .. } => (op, Option::Some(p)),
        OperatorV::Limit { source, limit, id } => {
            let (s2, r) = push_pred_spec(*source, p, tables);
            (OperatorV::Limit { source: Box::new(s2), limit, id }, r)
        },
        OperatorV::Order { source, key, id } => {
            let (s2, r) = push_pred_spec(*source, p, tables);
            (OperatorV::Order { source: Box::new(s2), key, id }, r)
        },
        OperatorV::Projection { source, expressions, id } => {
            let (s2, r) = push_pred_spec(*source, p, tables);
            (OperatorV::Projection { source: Box::new(s2), expressions, id }, r)
        },
        OperatorV::Nothing => (op, Option::Some(p)),
    }
}

/// Push each predicate of a filter's list into its source in order;
/// returns the source as rewritten and the predicates that stayed.
pub open spec fn push_filter_list_spec(
    src: OperatorV,
    ps: Seq<ExprV>,
    tables: Seq<(TableV, Seq<char>)>,
) -> (OperatorV, Seq<ExprV>)
    decreases ps,
{
    if ps.len() == 0 {
        (src, ps)
    } else {
        let (s2, r) = push_pred_spec(src, ps[0], tables);
        match r {
            Option::None => push_filter_list_spec(s2, ps.drop_first(), tables),
            Option::Some(p2) => {
                let (s3, kept) = push_filter_list_spec(s2, ps.drop_first(), tables);
                (s3, seq![p2] + kept)
            },
        }
    }
}

/// Push each join-ON predicate into the children in order: for an outer
/// join only into the right child, otherwise left first, then right;
/// returns both children as rewritten and the predicates that stayed.
pub open spec fn push_join_list_spec(
    l: OperatorV,
    r: OperatorV,
    ps: Seq<ExprV>,
    outer: bool,
    tables: Seq<(TableV, Seq<char>)>,
) -> (OperatorV, OperatorV, Seq<ExprV>)
    decreases ps,
{
    if ps.len() == 0 {
        (l, r, ps)
    } else {
        let p = ps[0];
        let (l2, lr) = if outer {
            (l, Option::Some(p))
        } else {
            push_pred_spec(l, p, tables)
        };
        match lr {
            Option::None => push_join_list_spec(l2, r, ps.drop_first(), outer, tables),
            Option::Some(p1) => {
                let (r2, rr) = push_pred_spec(r, p1, tables);
                match rr {
                    Option::None => push_join_list_spec(l2, r2, ps.drop_first(), outer, tables),
                    Option::Some(p2) => {
                        let (l3, r3, kept) = push_join_list_spec(
                            l2,
                            r2,
                            ps.drop_first(),
                            outer,
                            tables,
                        );
                        (l3, r3, seq![p2] + kept)
                    },
                }
            },
        }
    }
}

/// Predicate pushdown over a whole subtree.
pub open spec fn push_preds_spec(op: OperatorV, tables: Seq<(TableV, Seq<char>)>) -> OperatorV
    decreases op,
{
    match op {
        OperatorV::Filter { source, predicates, id } => {
            let (s2, kept) = push_filter_list_spec(*source, predicates, tables);
            if kept.len() == 0 {
                s2
            } else {
                OperatorV::Filter { source: Box::new(s2), predicates: kept, id }
            }
        },
        OperatorV::Join { left, right, predicates, outer, id } => {
            let l1 = push_preds_spec(*left, tables);
            let r1 = push_preds_spec(*right, tables);
            match predicates {
                Option::None => OperatorV::Join {
                    left: Box::new(l1),
                    right: Box::new(r1),
                    predicates: Option::None,
                    outer,
                    id,
                },
                Option::Some(ps) => {
                    let (l2, r2, kept) = push_join_list_spec(l1, r1, ps, outer, tables);
                    OperatorV::Join {
                        left: Box::new(l2),
                        right: Box::new(r2),
                        predicates: Option::Some(kept),
                        outer,
                        id,
                    }
                },
            }
        },
        OperatorV::Aggregate { source, aggregates, group_by, id } => OperatorV::Aggregate {
            source: Box::new(push_preds_spec(*source, tables)),
            aggregates,
            group_by,
            id,
        },
        OperatorV::SeekRowid { .. } => op,
        OperatorV::Limit { source, limit, id } => OperatorV::Limit {
            source: Box::new(push_preds_spec(*source, tables)),
            limit,
            id,
        },
        OperatorV::Order { source, key, id } => OperatorV::Order {
            source: Box::new(push_preds_spec(*source, tables)),
            key,
            id,
        },
        OperatorV::Projection { source, expressions, id } => OperatorV::Projection {
            source: Box::new(push_preds_spec(*source, tables)),
            expressions,
            id,
        },
        OperatorV::Scan { .. } => op,
        OperatorV::Nothing => OperatorV::Nothing,
    }
}


/// Push one predicate down the tree, as far as possible: the rewritten
/// operator, and `None` when the predicate was absorbed, else the
/// predicate handed back.
pub fn push_predicate(op: Operator, predicate: Expr, tables: &Vec<(Table, String)>) -> (r: (
    Operator,
    Option<Expr>,
))
    requires
        tables@.len() <= 64,
    ensures
        r.0@ == push_pred_spec(op@, predicate@, tables_view(tables@)).0,
        opt_expr_view(r.1) == push_pred_spec(op@, predicate@, tables_view(tables@)).1,
    decreases op,
{
    match op {
        Operator::Scan { table, table_identifier, predicates, id } => {
            match find_table_index(tables, table_identifier.as_str()) {
                Option::None => (
                    Operator::Scan { table, table_identifier, predicates, id },
                    Option::Some(predicate),
                ),
                Option::Some(ti) => {
                    let mask = crate::plan::get_table_ref_bitmask_for_expr(tables, &predicate);
                    if (mask >> (ti as u64)) > 1 {
                        (
                            Operator::Scan { table, table_identifier, predicates, id },
                            Option::Some(predicate),
                        )
                    } else {
                        let new_preds: Vec<Expr> = match predicates {
                            Option::None => {
                                let ghost pv = predicate@;
                                let v = vec![predicate];
                                proof {
                                    crate::expr::lemma_exprs_view_index(v@);
                                    assert(crate::expr::exprs_view(v@) =~= seq![pv]);
                                }
                                v
                            },
                            Option::Some(mut v) => {
                                proof {
                                    crate::expr::lemma_exprs_view_push(v@, predicate);
                                }
                                v.push(predicate);
                                v
                            },
                        };
                        (
                            Operator::Scan {
                                table,
                                table_identifier,
                                predicates: Option::Some(new_preds),
                                id,
                            },
                            Option::None,
                        )
                    }
                },
            }
        },
        Operator::Filter { source, mut predicates, id } => {
            let (s2, r) = push_predicate(*source, predicate, tables);
            match r {
                Option::None => (
                    Operator::Filter { source: Box::new(s2), predicates, id },
                    Option::None,
                ),
                Option::Some(p2) => {
                    proof {
                        crate::expr::lemma_exprs_view_push(predicates@, p2);
                    }
                    predicates.push(p2);
                    (Operator::Filter { source: Box::new(s2), predicates, id }, Option::None)
                },
            }
        },
        Operator::Join { left, right, predicates, outer, id } => {
            let (l2, lr) = push_predicate(*left, predicate, tables);
            match lr {
                Option::None => (
                    Operator::Join { left: Box::new(l2), right, predicates, outer, id },
                    Option::None,
                ),
                Option::Some(p1) => {
                    let (r2, rr) = push_predicate(*right, p1, tables);
                    match rr {
                        Option::None => (
                            Operator::Join {
                                left: Box::new(l2),
                                right: Box::new(r2),
                                predicates,
                                outer,
                                id,
                            },
                            Option::None,
                        ),
                        Option::Some(p2) => {
                            if outer {
                                return (
                                    Operator::Join {
                                        left: Box::new(l2),
                                        right: Box::new(r2),
                                        predicates,
                                        outer,
                                        id,
                                    },
                                    Option::Some(p2),
                                );
                            }
                            let pm = crate::plan::get_table_ref_bitmask_for_expr(tables, &p2);
                            let lm = crate::plan::get_table_ref_bitmask_for_operator(tables, &l2);
                            let rm = crate::plan::get_table_ref_bitmask_for_operator(tables, &r2);
                            if pm & lm == 0 || pm & rm == 0 {
                                (
                                    Operator::Join {
                                        left: Box::new(l2),
                                        right: Box::new(r2),
                                        predicates,
                                        outer,
                                        id,
                                    },
                                    Option::Some(p2),
                                )
                            } else {
                                let new_preds: Vec<Expr> = match predicates {
                                    Option::None => {
                                        let ghost pv = p2@;
                                        let v = vec![p2];
                                        proof {
                                            crate::expr::lemma_exprs_view_index(v@);
                                            assert(crate::expr::exprs_view(v@) =~= seq![pv]);
                                        }
                                        v
                                    },
                                    Option::Some(mut v) => {
                                        proof {
                                            crate::expr::lemma_exprs_view_push(v@, p2);
                                        }
                                        v.push(p2);
                                        v
                                    },
                                };
                                (
                                    Operator::Join {
                                        left: Box::new(l2),
                                        right: Box::new(r2),
                                        predicates: Option::Some(new_preds),
                                        outer,
                                        id,
                                    },
                                    Option::None,
                                )
                            }
                        },
                    }
                },
            }
        },
        Operator::Aggregate { source, aggregates, group_by, id } => {
            let (s2, r) = push_predicate(*source, predicate, tables);
            (Operator::Aggregate { source: Box::new(s2), aggregates, group_by, id }, r)
        },
        Operator::SeekRowid { table, table_identifier, rowid_predicate, predicates, id } => (
            Operator::SeekRowid { table, table_identifier, rowid_predicate, predicates, id },
            Option::Some(predicate),
        ),
        Operator::Limit { source, limit, id } => {
            let (s2, r) = push_predicate(*source, predicate, tables);
            (Operator::Limit { source: Box::new(s2), limit, id }, r)
        },
        Operator::Order { source, key, id } => {
            let (s2, r) = push_predicate(*source, predicate, tables);
            (Operator::Order { source: Box::new(s2), key, id }, r)
        },
        Operator::Projection { source, expressions, id } => {
            let (s2, r) = push_predicate(*source, predicate, tables);
            (Operator::Projection { source: Box::new(s2), expressions, id }, r)
        },
        Operator::Nothing => (Operator::Nothing, Option::Some(predicate)),
    }
}

/// Apply `push_filter_list_spec` to one owned filter list.
fn push_filter_vec(src: Operator, ps: Vec<Expr>, tables: &Vec<(Table, String)>) -> (r: (
    Operator,
    Vec<Expr>,
))
    requires
        tables@.len() <= 64,
    ensures
        r.0@ == push_filter_list_spec(src@, crate::expr::exprs_view(ps@), tables_view(tables@)).0,
        crate::expr::exprs_view(r.1@) == push_filter_list_spec(
            src@,
            crate::expr::exprs_view(ps@),
            tables_view(tables@),
        ).1,
    decreases ps@.len(),
{
    let ghost s = crate::expr::exprs_view(ps@);
    proof {
        crate::expr::lemma_exprs_view_index(ps@);
        if ps@.len() > 0 {
            crate::expr::lemma_exprs_view_index(ps@.drop_first());
            assert(s.drop_first() =~= crate::expr::exprs_view(ps@.drop_first()));
        }
    }
    let ghost v0 = ps@;
    let mut ps = ps;
    if ps.len() == 0 {
        return (src, ps);
    }
    let p = ps.remove(0);
    proof {
        assert(ps@ =~= v0.drop_first());
    }
    let (s2, r) = push_predicate(src, p, tables);
    match r {
        Option::None => push_filter_vec(s2, ps, tables),
        Option::Some(p2) => {
            let (s3, mut kept) = push_filter_vec(s2, ps, tables);
            let ghost kept0 = kept@;
            kept.insert(0, p2);
            proof {
                crate::expr::lemma_exprs_view_index(kept0);
                crate::expr::lemma_exprs_view_index(kept@);
                assert(kept@ =~= seq![p2] + kept0);
                let target = seq![push_pred_spec(src@, s[0], tables_view(tables@)).1->0]
                    + push_filter_list_spec(
                    push_pred_spec(src@, s[0], tables_view(tables@)).0,
                    s.drop_first(),
                    tables_view(tables@),
                ).1;
                assert(crate::expr::exprs_view(kept@).len() == target.len());
                assert forall|i: int| 0 <= i < kept@.len() implies crate::expr::exprs_view(
                    kept@,
                )[i] == target[i] by {
                    if i > 0 {
                        assert(kept@[i] == kept0[i - 1]);
                        assert(crate::expr::exprs_view(kept0)[i - 1] == expr_view(kept0[i - 1]));
                    }
                }
                assert(crate::expr::exprs_view(kept@) =~= target);
            }
            (s3, kept)
        },
    }
}

/// Apply `push_join_list_spec` to one owned join-ON list.
fn push_join_vec(
    l: Operator,
    r: Operator,
    ps: Vec<Expr>,
    outer: bool,
    tables: &Vec<(Table, String)>,
) -> (res: (Operator, Operator, Vec<Expr>))
    requires
        tables@.len() <= 64,
    ensures
        res.0@ == push_join_list_spec(
            l@,
            r@,
            crate::expr::exprs_view(ps@),
            outer,
            tables_view(tables@),
        ).0,
        res.1@ == push_join_list_spec(
            l@,
            r@,
            crate::expr::exprs_view(ps@),
            outer,
            tables_view(tables@),
        ).1,
        crate::expr::exprs_view(res.2@) == push_join_list_spec(
            l@,
            r@,
            crate::expr::exprs_view(ps@),
            outer,
            tables_view(tables@),
        ).2,
    decreases ps@.len(),
{
    let ghost s = crate::expr::exprs_view(ps@);
    let ghost tv = tables_view(tables@);
    proof {
        crate::expr::lemma_exprs_view_index(ps@);
        if ps@.len() > 0 {
            crate::expr::lemma_exprs_view_index(ps@.drop_first());
            assert(s.drop_first() =~= crate::expr::exprs_view(ps@.drop_first()));
        }
    }
    let ghost v0 = ps@;
    let mut ps = ps;
    if ps.len() == 0 {
        return (l, r, ps);
    }
    let p = ps.remove(0);
    proof {
        assert(ps@ =~= v0.drop_first());
    }
    if outer {
        let (r2, rr) = push_predicate(r, p, tables);
        match rr {
            Option::None => push_join_vec(l, r2, ps, outer, tables),
            Option::Some(p2) => {
                let (l3, r3, mut kept) = push_join_vec(l, r2, ps, outer, tables);
                let ghost kept0 = kept@;
                kept.insert(0, p2);
                proof {
                    crate::expr::lemma_exprs_view_index(kept0);
                    crate::expr::lemma_exprs_view_index(kept@);
                    assert(kept@ =~= seq![p2] + kept0);
                    let target = push_join_list_spec(l@, r@, s, outer, tv).2;
                    assert(crate::expr::exprs_view(kept@).len() == target.len());
                    assert forall|i: int| 0 <= i < kept@.len() implies crate::expr::exprs_view(
                        kept@,
                    )[i] == target[i] by {
                        if i > 0 {
                            assert(kept@[i] == kept0[i - 1]);
                            assert(crate::expr::exprs_view(kept0)[i - 1] == expr_view(
                                kept0[i - 1],
                            ));
                        }
                    }
                    assert(crate::expr::exprs_view(kept@) =~= target);
                }
                (l3, r3, kept)
            },
        }
    } else {
        let (l2, lr) = push_predicate(l, p, tables);
        match lr {
            Option::None => push_join_vec(l2, r, ps, outer, tables),
            Option::Some(p1) => {
                let (r2, rr) = push_predicate(r, p1, tables);
                match rr {
                    Option::None => push_join_vec(l2, r2, ps, outer, tables),
                    Option::Some(p2) => {
                        let (l3, r3, mut kept) = push_join_vec(l2, r2, ps, outer, tables);
                        let ghost kept0 = kept@;
                        kept.insert(0, p2);
                        proof {
                            crate::expr::lemma_exprs_view_index(kept0);
                            crate::expr::lemma_exprs_view_index(kept@);
                            assert(kept@ =~= seq![p2] + kept0);
                            let target = push_join_list_spec(l@, r@, s, outer, tv).2;
                            assert(crate::expr::exprs_view(kept@).len() == target.len());
                            assert forall|i: int|
                                0 <= i < kept@.len() implies crate::expr::exprs_view(kept@)[i]
                                == target[i] by {
                                if i > 0 {
                                    assert(kept@[i] == kept0[i - 1]);
                                    assert(crate::expr::exprs_view(kept0)[i - 1] == expr_view(
                                        kept0[i - 1],
                                    ));
                                }
                            }
                            assert(crate::expr::exprs_view(kept@) =~= target);
                        }
                        (l3, r3, kept)
                    },
                }
            },
        }
    }
}

/// Recursively push predicates down the tree, as far as possible.
pub fn push_predicates(op: Operator, tables: &Vec<(Table, String)>) -> (r: Operator)
    requires
        tables@.len() <= 64,
    ensures
        r@ == push_preds_spec(op@, tables_view(tables@)),
    decreases op,
{
    match op {
        Operator::Filter { source, predicates, id } => {
            let (s2, kept) = push_filter_vec(*source, predicates, tables);
            proof {
                crate::expr::lemma_exprs_view_index(kept@);
            }
            if kept.len() == 0 {
                s2
            } else {
                Operator::Filter { source: Box::new(s2), predicates: kept, id }
            }
        },
        Operator::Join { left, right, predicates, outer, id } => {
            let l1 = push_predicates(*left, tables);
            let r1 = push_predicates(*right, tables);
            match predicates {
                Option::None => Operator::Join {
                    left: Box::new(l1),
                    right: Box::new(r1),
                    predicates: Option::None,
                    outer,
                    id,
                },
                Option::Some(ps) => {
                    let (l2, r2, kept) = push_join_vec(l1, r1, ps, outer, tables);
                    Operator::Join {
                        left: Box::new(l2),
                        right: Box::new(r2),
                        predicates: Option::Some(kept),
                        outer,
                        id,
                    }
                },
            }
        },
        Operator::Aggregate { source, aggregates, group_by, id } => {
            let s2 = push_predicates(*source, tables);
            Operator::Aggregate { source: Box::new(s2), aggregates, group_by, id }
        },
        Operator::SeekRowid { table, table_identifier, rowid_predicate, predicates, id } => {
            Operator::SeekRowid { table, table_identifier, rowid_predicate, predicates, id }
        },
        Operator::Limit { source, limit, id } => {
            let s2 = push_predicates(*source, tables);
            Operator::Limit { source: Box::new(s2), limit, id }
        },
        Operator::Order { source, key, id } => {
            let s2 = push_predicates(*source, tables);
            Operator::Order { source: Box::new(s2), key, id }
        },
        Operator::Projection { source, expressions, id } => {
            let s2 = push_predicates(*source, tables);
            Operator::Projection { source: Box::new(s2), expressions, id }
        },
        Operator::Scan { table, table_identifier, predicates, id } => {
            Operator::Scan { table, table_identifier, predicates, id }
        },
        Operator::Nothing => Operator::Nothing,
    }
}


/// Rowid-equality extraction: for `a = b` where one side resolves to the
/// primary key of table `ti`, the other side is the lookup key. Returns
/// whether extraction succeeded and the key (or the expression back).
pub open spec fn try_extract_spec(
    e: ExprV,
    ti: int,
    tables: Seq<(TableV, Seq<char>)>,
) -> Result<(bool, ExprV), Seq<char>> {
    match e {
        ExprV::Binary(lhs, op, rhs) => {
            if op != BinaryOperator::Equals {
                Result::Ok((false, e))
            } else {
                match check_primary_key_spec(*lhs, tables) {
                    Result::Err(n) => Result::Err(n),
                    Result::Ok(lres) => {
                        if lres == Option::Some(ti) {
                            Result::Ok((true, *rhs))
                        } else {
                            match check_primary_key_spec(*rhs, tables) {
                                Result::Err(n) => Result::Err(n),
                                Result::Ok(rres) => {
                                    if rres == Option::Some(ti) {
                                        Result::Ok((true, *lhs))
                                    } else {
                                        Result::Ok((false, e))
                                    }
                                },
                            }
                        }
                    },
                }
            }
        },
        _ => Result::Ok((false, e)),
    }
}

/// The first predicate of `fs` (at or after `from`) that extracts as a
/// rowid equality against table `ti`: its position and the key expression.
pub open spec fn find_rowid_pred(
    fs: Seq<ExprV>,
    ti: int,
    tables: Seq<(TableV, Seq<char>)>,
    from: int,
) -> Result<Option<(int, ExprV)>, Seq<char>>
    decreases fs.len() - from,
{
    if from < 0 || from >= fs.len() {
        Result::Ok(Option::None)
    } else {
        match try_extract_spec(fs[from], ti, tables) {
            Result::Err(n) => Result::Err(n),
            Result::Ok((true, e)) => Result::Ok(Option::Some((from, e))),
            Result::Ok((false, _)) => find_rowid_pred(fs, ti, tables, from + 1),
        }
    }
}

/// Primary-key point-lookup selection over a subtree: each scan whose
/// filter list holds a rowid-equality predicate becomes a `SeekRowid` on
/// that key, the remaining predicates becoming its residual filters.
pub open spec fn use_indexes_spec(
    op: OperatorV,
    tables: Seq<(TableV, Seq<char>)>,
) -> Result<OperatorV, Seq<char>>
    decreases op,
{
    match op {
        OperatorV::Scan { table, table_identifier, predicates, id } => {
            match predicates {
                Option::None => Result::Ok(op),
                Option::Some(fs) => {
                    match crate::plan::table_pos(tables, table_identifier) {
                        Option::None => Result::Ok(op),
                        Option::Some(ti) => {
                            match find_rowid_pred(fs, ti, tables, 0) {
                                Result::Err(n) => Result::Err(n),
                                Result::Ok(Option::None) => Result::Ok(op),
                                Result::Ok(Option::Some((i, rowid))) => {
                                    let rem = fs.remove(i);
                                    Result::Ok(
                                        OperatorV::SeekRowid {
                                            table,
                                            table_identifier,
                                            rowid_predicate: rowid,
                                            predicates: if rem.len() == 0 {
                                                Option::None
                                            } else {
                                                Option::Some(rem)
                                            },
                                            id,
                                        },
                                    )
                                },
                            }
                        },
                    }
                },
            }
        },
        OperatorV::SeekRowid { .. } => Result::Ok(op),
        OperatorV::Filter { source, predicates, id } => {
            match use_indexes_spec(*source, tables) {
                Result::Err(n) => Result::Err(n),
                Result::Ok(s2) => Result::Ok(
                    OperatorV::Filter { source: Box::new(s2), predicates, id },
                ),
            }
        },
        OperatorV::Join { left, right, predicates, outer, id } => {
            match use_indexes_spec(*left, tables) {
                Result::Err(n) => Result::Err(n),
                Result::Ok(l2) => match use_indexes_spec(*right, tables) {
                    Result::Err(n) => Result::Err(n),
                    Result::Ok(r2) => Result::Ok(
                        OperatorV::Join {
                            left: Box::new(l2),
                            right: Box::new(r2),
                            predicates,
                            outer,
                            id,
                        },
                    ),
                },
            }
        },
        OperatorV::Aggregate { source, aggregates, group_by, id } => {
            match use_indexes_spec(*source, tables) {
                Result::Err(n) => Result::Err(n),
                Result::Ok(s2) => Result::Ok(
                    OperatorV::Aggregate { source: Box::new(s2), aggregates, group_by, id },
                ),
            }
        },
        OperatorV::Limit { source, limit, id } => {
            match use_indexes_spec(*source, tables) {
                Result::Err(n) => Result::Err(n),
                Result::Ok(s2) => Result::Ok(OperatorV::Limit { source: Box::new(s2), limit, id }),
            }
        },
        OperatorV::Order { source, key, id } => {
            match use_indexes_spec(*source, tables) {
                Result::Err(n) => Result::Err(n),
                Result::Ok(s2) => Result::Ok(OperatorV::Order { source: Box::new(s2), key, id }),
            }
        },
        OperatorV::Projection { source, expressions, id } => {
            match use_indexes_spec(*source, tables) {
                Result::Err(n) => Result::Err(n),
                Result::Ok(s2) => Result::Ok(
                    OperatorV::Projection { source: Box::new(s2), expressions, id },
                ),
            }
        },
        OperatorV::Nothing => Result::Ok(op),
    }
}

/// If `expr` is an equality whose one side names the primary key of table
/// `table_index`, extract the other side as the lookup key; otherwise hand
/// the expression back unchanged.
pub fn try_extract_rowid_comparison_expression(
    expr: Expr,
    table_index: usize,
    referenced_tables: &Vec<(Table, String)>,
) -> (r: Result<(bool, Expr), OptimizeError>)
    ensures
        match r {
            Result::Ok(p) => try_extract_spec(
                expr@,
                table_index as int,
                tables_view(referenced_tables@),
            ) == Result::<(bool, ExprV), Seq<char>>::Ok((p.0, p.1@)),
            Result::Err(OptimizeError::AmbiguousColumnName(n)) => try_extract_spec(
                expr@,
                table_index as int,
                tables_view(referenced_tables@),
            ) == Result::<(bool, ExprV), Seq<char>>::Err(n@),
        },
{
    match expr {
        Expr::Binary(lhs, op, rhs) => {
            if !matches!(op, BinaryOperator::Equals) {
                return Result::Ok((false, Expr::Binary(lhs, op, rhs)));
            }
            let lres = match lhs.check_primary_key(referenced_tables) {
                Result::Ok(x) => x,
                Result::Err(e) => {
                    return Result::Err(e);
                },
            };
            match lres {
                Option::Some(i) if i == table_index => {
                    return Result::Ok((true, *rhs));
                },
                _ => {},
            }
            let rres = match rhs.check_primary_key(referenced_tables) {
                Result::Ok(x) => x,
                Result::Err(e) => {
                    return Result::Err(e);
                },
            };
            match rres {
                Option::Some(i) if i == table_index => Result::Ok((true, *lhs)),
                _ => Result::Ok((false, Expr::Binary(lhs, op, rhs))),
            }
        },
        _ => Result::Ok((false, expr)),
    }
}

/// Convert one scan's filter list: find the first rowid-equality
/// predicate and, if found, turn the scan into a point lookup.
#[verifier::loop_isolation(false)]
#[verifier::rlimit(100)]
fn convert_scan(
    table: Table,
    table_identifier: String,
    fs: Vec<Expr>,
    id: usize,
    referenced_tables: &Vec<(Table, String)>,
) -> (r: Result<Operator, OptimizeError>)
    ensures
        match r {
            Result::Ok(o) => use_indexes_spec(
                OperatorV::Scan {
                    table: table@,
                    table_identifier: table_identifier@,
                    predicates: Option::Some(crate::expr::exprs_view(fs@)),
                    id,
                },
                tables_view(referenced_tables@),
            ) == Result::<OperatorV, Seq<char>>::Ok(o@),
            Result::Err(OptimizeError::AmbiguousColumnName(n)) => use_indexes_spec(
                OperatorV::Scan {
                    table: table@,
                    table_identifier: table_identifier@,
                    predicates: Option::Some(crate::expr::exprs_view(fs@)),
                    id,
                },
                tables_view(referenced_tables@),
            ) == Result::<OperatorV, Seq<char>>::Err(n@),
        },
{
    let ghost tv = tables_view(referenced_tables@);
    let ghost s = crate::expr::exprs_view(fs@);
    let mut fs = fs;
    let ti: usize = match find_table_index(referenced_tables, table_identifier.as_str()) {
        Option::None => {
            return Result::Ok(
                Operator::Scan { table, table_identifier, predicates: Option::Some(fs), id },
            );
        },
        Option::Some(i) => i,
    };
    proof {
        crate::expr::lemma_exprs_view_index(fs@);
    }
    let mut i: usize = 0;
    let mut found: Option<Expr> = Option::None;
    while i < fs.len() && found.is_none()
        invariant
            match found {
                Option::None => {
                    &&& i <= fs@.len()
                    &&& crate::expr::exprs_view(fs@) == s
                    &&& find_rowid_pred(s, ti as int, tv, 0) == find_rowid_pred(
                        s,
                        ti as int,
                        tv,
                        i as int,
                    )
                },
                Option::Some(e) => {
                    &&& i < s.len()
                    &&& find_rowid_pred(s, ti as int, tv, 0)
                        == Result::<Option<(int, ExprV)>, Seq<char>>::Ok(
                        Option::Some((i as int, e@)),
                    )
                    &&& crate::expr::exprs_view(fs@) == s.remove(i as int)
                },
            },
        decreases fs@.len() - i,
    {
        let ghost fs0 = fs@;
        let f = fs.remove(i);
        proof {
            crate::expr::lemma_exprs_view_index(fs0);
            crate::expr::lemma_exprs_view_index(fs@);
            assert(f == fs0[i as int]);
            assert(expr_view(f) == s[i as int]);
        }
        match try_extract_rowid_comparison_expression(f, ti, referenced_tables) {
            Result::Err(e) => {
                return Result::Err(e);
            },
            Result::Ok((can_use, e)) => {
                if can_use {
                    proof {
                        assert(find_rowid_pred(s, ti as int, tv, i as int)
                            == Result::<Option<(int, ExprV)>, Seq<char>>::Ok(
                            Option::Some((i as int, e@)),
                        ));
                        crate::expr::lemma_exprs_view_index(fs@);
                        assert(crate::expr::exprs_view(fs@).len() == s.remove(i as int).len());
                        assert forall|k: int| 0 <= k < fs@.len() implies crate::expr::exprs_view(
                            fs@,
                        )[k] == s.remove(i as int)[k] by {
                            if k < i {
                                assert(fs@[k] == fs0[k]);
                            } else {
                                assert(fs@[k] == fs0[k + 1]);
                            }
                        }
                        assert(crate::expr::exprs_view(fs@) =~= s.remove(i as int));
                    }
                    found = Option::Some(e);
                } else {
                    let ghost fs1 = fs@;
                    fs.insert(i, e);
                    proof {
                        crate::expr::lemma_exprs_view_index(fs@);
                        assert(crate::expr::exprs_view(fs@).len() == s.len());
                        assert forall|k: int| 0 <= k < fs@.len() implies crate::expr::exprs_view(
                            fs@,
                        )[k] == s[k] by {
                            if k < i {
                                assert(fs@[k] == fs1[k]);
                                assert(fs1[k] == fs0[k]);
                            } else if k == i {
                                assert(fs@[k] == e);
                            } else {
                                assert(fs@[k] == fs1[k - 1]);
                                assert(fs1[k - 1] == fs0[k]);
                            }
                        }
                        assert(crate::expr::exprs_view(fs@) =~= s);
                    }
                    i = i + 1;
                }
            },
        }
    }
    match found {
        Option::None => {
            proof {
                crate::expr::lemma_exprs_view_index(fs@);
                assert(i as int >= s.len());
                assert(find_rowid_pred(s, ti as int, tv, 0)
                    == Result::<Option<(int, ExprV)>, Seq<char>>::Ok(Option::None));
            }
            Result::Ok(
                Operator::Scan { table, table_identifier, predicates: Option::Some(fs), id },
            )
        },
        Option::Some(rowid_predicate) => {
            proof {
                crate::expr::lemma_exprs_view_index(fs@);
            }
            let predicates_owned: Option<Vec<Expr>> = if fs.len() == 0 {
                Option::None
            } else {
                Option::Some(fs)
            };
            Result::Ok(
                Operator::SeekRowid {
                    table,
                    table_identifier,
                    rowid_predicate,
                    predicates: predicates_owned,
                    id,
                },
            )
        },
    }
}

/// Use indexes where possible (currently primary-key point lookups).
pub fn use_indexes(op: Operator, referenced_tables: &Vec<(Table, String)>) -> (r: Result<
    Operator,
    OptimizeError,
>)
    ensures
        match r {
            Result::Ok(o) => use_indexes_spec(op@, tables_view(referenced_tables@))
                == Result::<OperatorV, Seq<char>>::Ok(o@),
            Result::Err(OptimizeError::AmbiguousColumnName(n)) => use_indexes_spec(
                op@,
                tables_view(referenced_tables@),
            ) == Result::<OperatorV, Seq<char>>::Err(n@),
        },
    decreases op,
{
    match op {
        Operator::Scan { table, table_identifier, predicates, id } => {
            match predicates {
                Option::None => Result::Ok(
                    Operator::Scan { table, table_identifier, predicates: Option::None, id },
                ),
                Option::Some(v) => convert_scan(table, table_identifier, v, id, referenced_tables),
            }
        },
        Operator::SeekRowid { table, table_identifier, rowid_predicate, predicates, id } => {
            Result::Ok(
                Operator::SeekRowid { table, table_identifier, rowid_predicate, predicates, id },
            )
        },
        Operator::Filter { source, predicates, id } => {
            match use_indexes(*source, referenced_tables) {
                Result::Err(e) => Result::Err(e),
                Result::Ok(s2) => Result::Ok(
                    Operator::Filter { source: Box::new(s2), predicates, id },
                ),
            }
        },
        Operator::Join { left, right, predicates, outer, id } => {
            match use_indexes(*left, referenced_tables) {
                Result::Err(e) => Result::Err(e),
                Result::Ok(l2) => match use_indexes(*right, referenced_tables) {
                    Result::Err(e) => Result::Err(e),
                    Result::Ok(r2) => Result::Ok(
                        Operator::Join {
                            left: Box::new(l2),
                            right: Box::new(r2),
                            predicates,
                            outer,
                            id,
                        },
                    ),
                },
            }
        },
        Operator::Aggregate { source, aggregates, group_by, id } => {
            match use_indexes(*source, referenced_tables) {
                Result::Err(e) => Result::Err(e),
                Result::Ok(s2) => Result::Ok(
                    Operator::Aggregate { source: Box::new(s2), aggregates, group_by, id },
                ),
            }
        },
        Operator::Limit { source, limit, id } => {
            match use_indexes(*source, referenced_tables) {
                Result::Err(e) => Result::Err(e),
                Result::Ok(s2) => Result::Ok(Operator::Limit { source: Box::new(s2), limit, id }),
            }
        },
        Operator::Order { source, key, id } => {
            match use_indexes(*source, referenced_tables) {
                Result::Err(e) => Result::Err(e),
                Result::Ok(s2) => Result::Ok(Operator::Order { source: Box::new(s2), key, id }),
            }
        },
        Operator::Projection { source, expressions, id } => {
            match use_indexes(*source, referenced_tables) {
                Result::Err(e) => Result::Err(e),
                Result::Ok(s2) => Result::Ok(
                    Operator::Projection { source: Box::new(s2), expressions, id },
                ),
            }
        },
        Operator::Nothing => Result::Ok(Operator::Nothing),
    }
}


/// Exact-match mask over an aggregate list: bit `i` set when aggregate
/// `i`'s original expression equals `e`.
pub open spec fn agg_exact_mask(aggs: Seq<AggregateV>, e: ExprV, from: int) -> u64
    decreases aggs.len() - from,
{
    if from < 0 || from >= aggs.len() {
        0u64
    } else {
        (if aggs[from].original_expr == e {
            crate::plan::bit_of(from)
        } else {
            0u64
        }) | agg_exact_mask(aggs, e, from + 1)
    }
}

/// Exact-match mask over group-by keys, with bit positions offset past
/// the aggregates.
pub open spec fn gb_exact_mask(gb: Seq<ExprV>, e: ExprV, from: int, offset: int) -> u64
    decreases gb.len() - from,
{
    if from < 0 || from >= gb.len() {
        0u64
    } else {
        (if gb[from] == e {
            crate::plan::bit_of(offset + from)
        } else {
            0u64
        }) | gb_exact_mask(gb, e, from + 1, offset)
    }
}

/// Exact-match mask over projection columns: star entries never match.
pub open spec fn proj_exact_mask(cols: Seq<ProjectionColumnV>, e: ExprV, from: int) -> u64
    decreases cols.len() - from,
{
    if from < 0 || from >= cols.len() {
        0u64
    } else {
        (match cols[from] {
            ProjectionColumnV::Column(c) => if c == e {
                crate::plan::bit_of(from)
            } else {
                0u64
            },
            _ => 0u64,
        }) | proj_exact_mask(cols, e, from + 1)
    }
}

/// The result positions of `op` that compute `e` exactly: aggregate
/// original expressions and group-by keys for an `Aggregate`, non-star
/// columns for a `Projection`, nothing for any other operator.
pub open spec fn exact_match_mask(e: ExprV, op: OperatorV) -> u64 {
    match op {
        OperatorV::Aggregate { aggregates, group_by, .. } => agg_exact_mask(aggregates, e, 0) | (
        match group_by {
            Option::Some(g) => gb_exact_mask(g, e, 0, aggregates.len() as int),
            Option::None => 0u64,
        }),
        OperatorV::Projection { expressions, .. } => proj_exact_mask(expressions, e, 0),
        _ => 0u64,
    }
}

/// The result positions of `op` that compute `e` fully or as a
/// sub-expression: an exact match wins, else the union over `e`'s
/// sub-expressions.
pub open spec fn match_mask(e: ExprV, op: OperatorV) -> u64
    decreases e,
{
    let ex = exact_match_mask(e, op);
    if ex != 0 {
        ex
    } else {
        match e {
            ExprV::Between { lhs, not, start, end } => match_mask(*lhs, op) | match_mask(
                *start,
                op,
            ) | match_mask(*end, op),
            ExprV::Binary(lhs, _, rhs) => match_mask(*lhs, op) | match_mask(*rhs, op),
            ExprV::Case { base, when_then_pairs, else_expr } => (match base {
                Option::Some(b) => match_mask(*b, op),
                Option::None => 0u64,
            }) | match_mask_pairs(when_then_pairs, op, 0) | (match else_expr {
                Option::Some(b) => match_mask(*b, op),
                Option::None => 0u64,
            }),
            ExprV::Cast { expr, .. } => match_mask(*expr, op),
            ExprV::Collate(expr, _) => match_mask(*expr, op),
            ExprV::DoublyQualified(..) => 0u64,
            ExprV::Exists(_) => 0u64,
            ExprV::FunctionCall { args, .. } => match args {
                Option::Some(s) => match_mask_list(s, op, 0),
                Option::None => 0u64,
            },
            ExprV::FunctionCallStar { .. } => 0u64,
            ExprV::Id(_) => 0u64,
            ExprV::InList { lhs, not, rhs } => match_mask(*lhs, op) | (match rhs {
                Option::Some(s) => match_mask_list(s, op, 0),
                Option::None => 0u64,
            }),
            ExprV::InSelect { lhs, .. } => match_mask(*lhs, op),
            ExprV::IsNull(expr) => match_mask(*expr, op),
            ExprV::Like { lhs, not, rhs, escape } => match_mask(*lhs, op) | match_mask(*rhs, op),
            ExprV::Literal(_) => 0u64,
            ExprV::NotNull(expr) => match_mask(*expr, op),
            ExprV::Parenthesized(s) => match_mask_list(s, op, 0),
            ExprV::Qualified(..) => 0u64,
            ExprV::Subquery(_) => 0u64,
            ExprV::Unary(_, expr) => match_mask(*expr, op),
            ExprV::Variable(_) => 0u64,
        }
    }
}

/// Union of `match_mask` over a list of expressions.
pub open spec fn match_mask_list(s: Seq<ExprV>, op: OperatorV, from: int) -> u64
    decreases s, s.len() - from,
{
    if from < 0 || from >= s.len() {
        0u64
    } else {
        match_mask(s[from], op) | match_mask_list(s, op, from + 1)
    }
}

/// Union of `match_mask` over both sides of when/then pairs.
pub open spec fn match_mask_pairs(s: Seq<(ExprV, ExprV)>, op: OperatorV, from: int) -> u64
    decreases s, s.len() - from,
{
    if from < 0 || from >= s.len() {
        0u64
    } else {
        match_mask(s[from].0, op) | match_mask(s[from].1, op) | match_mask_pairs(s, op, from + 1)
    }
}

/// Exact-match mask over an aggregate list.
#[verifier::loop_isolation(false)]
fn agg_mask_x(aggs: &Vec<Aggregate>, e: &Expr) -> (r: u64)
    ensures
        r == agg_exact_mask(aggregates_view(aggs@), e@, 0),
{
    let ghost av = aggregates_view(aggs@);
    let n = aggs.len();
    let mut i: usize = 0;
    let mut acc: u64 = 0;
    proof {
        let m0 = agg_exact_mask(av, e@, 0);
        assert(0u64 | m0 == m0) by (bit_vector);
    }
    while i < n
        invariant
            i <= n,
            agg_exact_mask(av, e@, 0) == acc | agg_exact_mask(av, e@, i as int),
        decreases n - i,
    {
        let ghost acc0 = acc;
        let hit = expr_eq(&aggs[i].original_expr, e);
        let this_bit: u64 = if hit && i < 64 {
            1u64 << (i as u64)
        } else {
            0u64
        };
        proof {
            assert(av[i as int] == crate::plan::aggregate_view(aggs@[i as int]));
            assert(agg_exact_mask(av, e@, i as int) == this_bit | agg_exact_mask(
                av,
                e@,
                i as int + 1,
            ));
        }
        acc = acc | this_bit;
        proof {
            let rest: u64 = agg_exact_mask(av, e@, i as int + 1);
            assert(acc0 | (this_bit | rest) == (acc0 | this_bit) | rest) by (bit_vector);
        }
        i = i + 1;
    }
    proof {
        assert(acc | 0u64 == acc) by (bit_vector);
    }
    acc
}

/// Exact-match mask over group-by keys, offset past the aggregates.
#[verifier::loop_isolation(false)]
fn gb_mask_x(gb: &Vec<Expr>, e: &Expr, offset: usize) -> (r: u64)
    ensures
        r == gb_exact_mask(crate::expr::exprs_view(gb@), e@, 0, offset as int),
{
    let ghost gv = crate::expr::exprs_view(gb@);
    proof {
        crate::expr::lemma_exprs_view_index(gb@);
    }
    let n = gb.len();
    let mut i: usize = 0;
    let mut acc: u64 = 0;
    proof {
        let m0 = gb_exact_mask(gv, e@, 0, offset as int);
        assert(0u64 | m0 == m0) by (bit_vector);
    }
    while i < n
        invariant
            i <= n,
            gb_exact_mask(gv, e@, 0, offset as int) == acc | gb_exact_mask(
                gv,
                e@,
                i as int,
                offset as int,
            ),
        decreases n - i,
    {
        let ghost acc0 = acc;
        let hit = expr_eq(&gb[i], e);
        let this_bit: u64 = if hit && offset < 64 && i < 64 - offset {
            1u64 << ((offset + i) as u64)
        } else {
            0u64
        };
        proof {
            assert(gv[i as int] == expr_view(gb@[i as int]));
            assert(gb_exact_mask(gv, e@, i as int, offset as int) == this_bit | gb_exact_mask(
                gv,
                e@,
                i as int + 1,
                offset as int,
            ));
        }
        acc = acc | this_bit;
        proof {
            let rest: u64 = gb_exact_mask(gv, e@, i as int + 1, offset as int);
            assert(acc0 | (this_bit | rest) == (acc0 | this_bit) | rest) by (bit_vector);
        }
        i = i + 1;
    }
    proof {
        assert(acc | 0u64 == acc) by (bit_vector);
    }
    acc
}

/// Exact-match mask over projection columns.
#[verifier::loop_isolation(false)]
fn proj_mask_x(cols: &Vec<ProjectionColumn>, e: &Expr) -> (r: u64)
    ensures
        r == proj_exact_mask(projection_columns_view(cols@), e@, 0),
{
    let ghost cv = projection_columns_view(cols@);
    let n = cols.len();
    let mut i: usize = 0;
    let mut acc: u64 = 0;
    proof {
        let m0 = proj_exact_mask(cv, e@, 0);
        assert(0u64 | m0 == m0) by (bit_vector);
    }
    while i < n
        invariant
            i <= n,
            proj_exact_mask(cv, e@, 0) == acc | proj_exact_mask(cv, e@, i as int),
        decreases n - i,
    {
        let ghost acc0 = acc;
        let this_bit: u64 = match &cols[i] {
            ProjectionColumn::Column(c) => {
                if expr_eq(c, e) && i < 64 {
                    1u64 << (i as u64)
                } else {
                    0u64
                }
            },
            _ => 0u64,
        };
        proof {
            assert(cv[i as int] == crate::plan::projection_column_view(cols@[i as int]));
            assert(proj_exact_mask(cv, e@, i as int) == this_bit | proj_exact_mask(
                cv,
                e@,
                i as int + 1,
            ));
        }
        acc = acc | this_bit;
        proof {
            let rest: u64 = proj_exact_mask(cv, e@, i as int + 1);
            assert(acc0 | (this_bit | rest) == (acc0 | this_bit) | rest) by (bit_vector);
        }
        i = i + 1;
    }
    proof {
        assert(acc | 0u64 == acc) by (bit_vector);
    }
    acc
}

/// Find all result columns of `operator` that match `expr`, fully or
/// partially, as a bitmask of result positions (so at most 64 result
/// columns per operator take part).
pub fn find_indexes_of_all_result_columns_in_operator_that_match_expr_either_fully_or_partially(
    expr: &Expr,
    operator: &Operator,
) -> (r: u64)
    ensures
        r == match_mask(expr@, operator@),
    decreases *expr, 0int, 0int,
{
    let exact: u64 = match operator {
        Operator::Aggregate { aggregates, group_by, .. } => {
            let a = agg_mask_x(aggregates, expr);
            let b: u64 = match group_by {
                Option::Some(g) => gb_mask_x(g, expr, aggregates.len()),
                Option::None => 0u64,
            };
            a | b
        },
        Operator::Projection { expressions, .. } => proj_mask_x(expressions, expr),
        _ => 0u64,
    };
    if exact != 0 {
        return exact;
    }
    match expr {
        Expr::Between { lhs, not, start, end } => {
            let a = find_indexes_of_all_result_columns_in_operator_that_match_expr_either_fully_or_partially(lhs, operator);
            let b = find_indexes_of_all_result_columns_in_operator_that_match_expr_either_fully_or_partially(start, operator);
            let c = find_indexes_of_all_result_columns_in_operator_that_match_expr_either_fully_or_partially(end, operator);
            a | b | c
        },
        Expr::Binary(lhs, _, rhs) => {
            let a = find_indexes_of_all_result_columns_in_operator_that_match_expr_either_fully_or_partially(lhs, operator);
            let b = find_indexes_of_all_result_columns_in_operator_that_match_expr_either_fully_or_partially(rhs, operator);
            a | b
        },
        Expr::Case { base, when_then_pairs, else_expr } => {
            let a: u64 = match base {
                Option::Some(b) => find_indexes_of_all_result_columns_in_operator_that_match_expr_either_fully_or_partially(b, operator),
                Option::None => 0u64,
            };
            let b = match_pairs_x(when_then_pairs, operator, 0);
            let c: u64 = match else_expr {
                Option::Some(x) => find_indexes_of_all_result_columns_in_operator_that_match_expr_either_fully_or_partially(x, operator),
                Option::None => 0u64,
            };
            a | b | c
        },
        Expr::Cast { expr: inner, .. } => find_indexes_of_all_result_columns_in_operator_that_match_expr_either_fully_or_partially(inner, operator),
        Expr::Collate(inner, _) => find_indexes_of_all_result_columns_in_operator_that_match_expr_either_fully_or_partially(inner, operator),
        Expr::DoublyQualified(..) => 0u64,
        Expr::Exists(_) => 0u64,
        Expr::FunctionCall { args, .. } => match args {
            Option::Some(v) => match_list_x(v, operator, 0),
            Option::None => 0u64,
        },
        Expr::FunctionCallStar { .. } => 0u64,
        Expr::Id(_) => 0u64,
        Expr::InList { lhs, not, rhs } => {
            let a = find_indexes_of_all_result_columns_in_operator_that_match_expr_either_fully_or_partially(lhs, operator);
            let b: u64 = match rhs {
                Option::Some(v) => match_list_x(v, operator, 0),
                Option::None => 0u64,
            };
            a | b
        },
        Expr::InSelect { lhs, .. } => find_indexes_of_all_result_columns_in_operator_that_match_expr_either_fully_or_partially(lhs, operator),
        Expr::IsNull(inner) => find_indexes_of_all_result_columns_in_operator_that_match_expr_either_fully_or_partially(inner, operator),
        Expr::Like { lhs, not, rhs, escape } => {
            let a = find_indexes_of_all_result_columns_in_operator_that_match_expr_either_fully_or_partially(lhs, operator);
            let b = find_indexes_of_all_result_columns_in_operator_that_match_expr_either_fully_or_partially(rhs, operator);
            a | b
        },
        Expr::Literal(_) => 0u64,
        Expr::NotNull(inner) => find_indexes_of_all_result_columns_in_operator_that_match_expr_either_fully_or_partially(inner, operator),
        Expr::Parenthesized(v) => match_list_x(v, operator, 0),
        Expr::Qualified(..) => 0u64,
        Expr::Subquery(_) => 0u64,
        Expr::Unary(_, inner) => find_indexes_of_all_result_columns_in_operator_that_match_expr_either_fully_or_partially(inner, operator),
        Expr::Variable(_) => 0u64,
    }
}

/// Union of the matcher over the expressions of `v` at `from` and on.
fn match_list_x(v: &Vec<Expr>, operator: &Operator, from: usize) -> (r: u64)
    requires
        from <= v@.len(),
    ensures
        r == match_mask_list(crate::expr::exprs_view(v@), operator@, from as int),
    decreases *v, 1int, v@.len() - from,
{
    proof {
        crate::expr::lemma_exprs_view_index(v@);
    }
    if from >= v.len() {
        0u64
    } else {
        let a = find_indexes_of_all_result_columns_in_operator_that_match_expr_either_fully_or_partially(&v[from], operator);
        let b = match_list_x(v, operator, from + 1);
        a | b
    }
}

/// Union of the matcher over both sides of the pairs of `v`.
fn match_pairs_x(v: &Vec<(Expr, Expr)>, operator: &Operator, from: usize) -> (r: u64)
    requires
        from <= v@.len(),
    ensures
        r == match_mask_pairs(crate::expr::expr_pairs_view(v@), operator@, from as int),
    decreases *v, 1int, v@.len() - from,
{
    proof {
        crate::expr::lemma_expr_pairs_view_index(v@);
    }
    if from >= v.len() {
        0u64
    } else {
        let a = find_indexes_of_all_result_columns_in_operator_that_match_expr_either_fully_or_partially(&v[from].0, operator);
        let b = find_indexes_of_all_result_columns_in_operator_that_match_expr_either_fully_or_partially(&v[from].1, operator);
        let c = match_pairs_x(v, operator, from + 1);
        a | b | c
    }
}


/// One guarded cache record: the parent position's keys are recorded only
/// when something matched and the composite-key bounds hold; out-of-range
/// ids or positions are left unrecorded rather than silently corrupted.
pub open spec fn set_key_guarded(
    c: ExpressionResultCacheV,
    op_id: usize,
    idx: int,
    child_id: usize,
    mask: u64,
) -> ExpressionResultCacheV {
    if mask != 0 && op_id <= MAX_OPERATOR_ID && 0 <= idx < OPERATOR_ID_MULTIPLIER && child_id
        <= MAX_OPERATOR_ID {
        ExpressionResultCacheV {
            resultmap: c.resultmap,
            keymap: c.keymap.insert(
                composite_key(op_id, idx as usize),
                mask_keys_from(child_id, mask, 0),
            ),
        }
    } else {
        c
    }
}

/// Record, for each sort key of an `Order`, the source positions that
/// already compute it.
pub open spec fn order_fold(
    c: ExpressionResultCacheV,
    key: Seq<(ExprV, crate::expr::Direction)>,
    from: int,
    op_id: usize,
    src: OperatorV,
) -> ExpressionResultCacheV
    decreases key.len() - from,
{
    if from < 0 || from >= key.len() {
        c
    } else {
        order_fold(
            set_key_guarded(c, op_id, from, spec_op_id(src), match_mask(key[from].0, src)),
            key,
            from + 1,
            op_id,
            src,
        )
    }
}

/// Record, for each projected column of a `Projection`, the source
/// positions that already compute it; star entries keep their position
/// but record nothing.
pub open spec fn proj_fold(
    c: ExpressionResultCacheV,
    cols: Seq<ProjectionColumnV>,
    from: int,
    op_id: usize,
    src: OperatorV,
) -> ExpressionResultCacheV
    decreases cols.len() - from,
{
    if from < 0 || from >= cols.len() {
        c
    } else {
        let c2 = match cols[from] {
            ProjectionColumnV::Column(e) => set_key_guarded(
                c,
                op_id,
                from,
                spec_op_id(src),
                match_mask(e, src),
            ),
            _ => c,
        };
        proj_fold(c2, cols, from + 1, op_id, src)
    }
}

/// The expression-result cache after the shared-expression pass over a
/// subtree: `Order` and `Projection` record what their source already
/// computes, then the pass descends through single-source operators;
/// joins, scans and lookups contribute nothing.
pub open spec fn cache_after(op: OperatorV, c: ExpressionResultCacheV) -> ExpressionResultCacheV
    decreases op,
{
    match op {
        OperatorV::Aggregate { source, .. } => cache_after(*source, c),
        OperatorV::Filter { source, .. } => cache_after(*source, c),
        OperatorV::SeekRowid { .. } => c,
        OperatorV::Limit { source, .. } => cache_after(*source, c),
        OperatorV::Join { .. } => c,
        OperatorV::Order { source, key, id } => cache_after(
            *source,
            order_fold(c, key, 0, id, *source),
        ),
        OperatorV::Projection { source, expressions, id } => cache_after(
            *source,
            proj_fold(c, expressions, 0, id, *source),
        ),
        OperatorV::Scan { .. } => c,
        OperatorV::Nothing => c,
    }
}

/// Find expressions that a parent operator shares with its direct source
/// and mark them in the cache, so the parent does not recompute them.
#[verifier::loop_isolation(false)]
pub fn find_shared_expressions_in_child_operators_and_mark_them_so_that_the_parent_operator_doesnt_recompute_them(
    operator: &Operator,
    expr_result_cache: &mut ExpressionResultCache,
)
    ensures
        final(expr_result_cache)@ == cache_after(operator@, old(expr_result_cache)@),
    decreases *operator,
{
    let ghost c0 = expr_result_cache@;
    match operator {
        Operator::Aggregate { source, .. } => {
            find_shared_expressions_in_child_operators_and_mark_them_so_that_the_parent_operator_doesnt_recompute_them(source, expr_result_cache);
        },
        Operator::Filter { source, .. } => {
            // A filter is not expected directly above this pass's parents;
            // it records nothing of its own and the pass descends.
            find_shared_expressions_in_child_operators_and_mark_them_so_that_the_parent_operator_doesnt_recompute_them(source, expr_result_cache);
        },
        Operator::SeekRowid { .. } => {},
        Operator::Limit { source, .. } => {
            find_shared_expressions_in_child_operators_and_mark_them_so_that_the_parent_operator_doesnt_recompute_them(source, expr_result_cache);
        },
        Operator::Join { .. } => {},
        Operator::Order { source, key, id } => {
            let ghost kv = crate::plan::order_key_view(key@);
            let ghost srcv = (**source)@;
            let n = key.len();
            let mut idx: usize = 0;
            while idx < n
                invariant
                    idx <= n,
                    n == key@.len(),
                    order_fold(c0, kv, 0, *id, srcv) == order_fold(
                        expr_result_cache@,
                        kv,
                        idx as int,
                        *id,
                        srcv,
                    ),
                decreases n - idx,
            {
                let ghost c_now = expr_result_cache@;
                let result = find_indexes_of_all_result_columns_in_operator_that_match_expr_either_fully_or_partially(&key[idx].0, source);
                let src_id = source.id();
                let oid = *id;
                proof {
                    assert(kv[idx as int].0 == expr_view(key@[idx as int].0));
                }
                if result != 0 && oid <= MAX_OPERATOR_ID && idx < OPERATOR_ID_MULTIPLIER && src_id
                    <= MAX_OPERATOR_ID {
                    expr_result_cache.set_precomputation_key(oid, idx, src_id, result);
                }
                proof {
                    assert(expr_result_cache@ == set_key_guarded(
                        c_now,
                        oid,
                        idx as int,
                        spec_op_id(srcv),
                        match_mask(kv[idx as int].0, srcv),
                    ));
                }
                idx = idx + 1;
            }
            find_shared_expressions_in_child_operators_and_mark_them_so_that_the_parent_operator_doesnt_recompute_them(source, expr_result_cache);
        },
        Operator::Projection { source, expressions, id } => {
            let ghost cv = projection_columns_view(expressions@);
            let ghost srcv = (**source)@;
            let n = expressions.len();
            let mut idx: usize = 0;
            while idx < n
                invariant
                    idx <= n,
                    n == expressions@.len(),
                    proj_fold(c0, cv, 0, *id, srcv) == proj_fold(
                        expr_result_cache@,
                        cv,
                        idx as int,
                        *id,
                        srcv,
                    ),
                decreases n - idx,
            {
                let ghost c_now = expr_result_cache@;
                proof {
                    assert(cv[idx as int] == crate::plan::projection_column_view(
                        expressions@[idx as int],
                    ));
                }
                match &expressions[idx] {
                    ProjectionColumn::Column(e) => {
                        let result = find_indexes_of_all_result_columns_in_operator_that_match_expr_either_fully_or_partially(e, source);
                        let src_id = source.id();
                        let oid = *id;
                        if result != 0 && oid <= MAX_OPERATOR_ID && idx < OPERATOR_ID_MULTIPLIER
                            && src_id <= MAX_OPERATOR_ID {
                            expr_result_cache.set_precomputation_key(oid, idx, src_id, result);
                        }
                        proof {
                            assert(expr_result_cache@ == set_key_guarded(
                                c_now,
                                oid,
                                idx as int,
                                spec_op_id(srcv),
                                match_mask(expr_view(*e), srcv),
                            ));
                        }
                    },
                    _ => {},
                }
                idx = idx + 1;
            }
            find_shared_expressions_in_child_operators_and_mark_them_so_that_the_parent_operator_doesnt_recompute_them(source, expr_result_cache);
        },
        Operator::Scan { .. } => {},
        Operator::Nothing => {},
    }
}

/// The whole pipeline's result on a plan's value: pushdown, elimination
/// (a plan proven empty becomes the `Nothing` plan with no referenced
/// tables and an empty cache), index selection, then the cache pass.
pub open spec fn optimize_spec(p: PlanV) -> Result<
    (PlanV, ExpressionResultCacheV),
    Seq<char>,
> {
    let empty_cache = ExpressionResultCacheV {
        resultmap: Map::empty(),
        keymap: Map::empty(),
    };
    let pushed = push_preds_spec(p.root_operator, p.referenced_tables);
    let (elim, imp) = elim_op(pushed);
    if imp {
        Result::Ok(
            (
                PlanV { root_operator: OperatorV::Nothing, referenced_tables: Seq::empty() },
                empty_cache,
            ),
        )
    } else {
        match use_indexes_spec(elim, p.referenced_tables) {
            Result::Err(n) => Result::Err(n),
            Result::Ok(idx) => Result::Ok(
                (
                    PlanV { root_operator: idx, referenced_tables: p.referenced_tables },
                    cache_after(idx, empty_cache),
                ),
            ),
        }
    }
}

/// Make a few passes over the plan to optimize it.
pub fn optimize_plan(select_plan: Plan) -> (r: Result<
    (Plan, ExpressionResultCache),
    OptimizeError,
>)
    requires
        select_plan.referenced_tables@.len() <= 64,
    ensures
        match r {
            Result::Ok(p) => optimize_spec(select_plan@)
                == Result::<(PlanV, ExpressionResultCacheV), Seq<char>>::Ok((p.0@, p.1@)),
            Result::Err(OptimizeError::AmbiguousColumnName(n)) => optimize_spec(select_plan@)
                == Result::<(PlanV, ExpressionResultCacheV), Seq<char>>::Err(n@),
        },
{
    let Plan { root_operator, referenced_tables } = select_plan;
    let mut expr_result_cache = ExpressionResultCache::new();
    let pushed = push_predicates(root_operator, &referenced_tables);
    let (elim, imp) = eliminate_constants(pushed);
    if matches!(imp, ConstantConditionEliminationResult::ImpossibleCondition) {
        let empty_plan = Plan { root_operator: Operator::Nothing, referenced_tables: Vec::new() };
        proof {
            assert(tables_view(Seq::<(Table, String)>::empty()) =~= Seq::<(
                TableV,
                Seq<char>,
            )>::empty());
        }
        return Result::Ok((empty_plan, expr_result_cache));
    }
    let idx = match use_indexes(elim, &referenced_tables) {
        Result::Ok(o) => o,
        Result::Err(e) => {
            return Result::Err(e);
        },
    };
    find_shared_expressions_in_child_operators_and_mark_them_so_that_the_parent_operator_doesnt_recompute_them(&idx, &mut expr_result_cache);
    Result::Ok((Plan { root_operator: idx, referenced_tables }, expr_result_cache))
}

} // verus!







