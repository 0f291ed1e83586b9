use plan_optimizer::cache::ExpressionResultCache;
use plan_optimizer::expr::{BinaryOperator, Direction, Expr, Literal, UnaryOperator};
use plan_optimizer::optimizer::{
    eliminate_constants, optimize_plan, push_predicates, use_indexes, ConstantConditionEliminationResult,
    ConstantPredicate, Optimizable, OptimizeError,
    find_shared_expressions_in_child_operators_and_mark_them_so_that_the_parent_operator_doesnt_recompute_them,
};
use plan_optimizer::plan::{Aggregate, Operator, Plan, ProjectionColumn};
use plan_optimizer::schema::{Column, Table};

fn col(name: &str, pk: bool) -> Column {
    Column { name: name.to_string(), primary_key: pk }
}

fn table(name: &str, cols: Vec<Column>) -> Table {
    Table { name: name.to_string(), columns: cols }
}

fn num(s: &str) -> Expr {
    Expr::Literal(Literal::Numeric(s.to_string()))
}

fn string_lit(s: &str) -> Expr {
    Expr::Literal(Literal::Str(s.to_string()))
}

fn qualified(t: &str, c: &str) -> Expr {
    Expr::Qualified(t.to_string(), c.to_string())
}

fn eq(l: Expr, r: Expr) -> Expr {
    Expr::Binary(Box::new(l), BinaryOperator::Equals, Box::new(r))
}

fn not(e: Expr) -> Expr {
    Expr::Unary(UnaryOperator::Not, Box::new(e))
}

fn scan(t: Table, ident: &str, preds: Option<Vec<Expr>>, id: usize) -> Operator {
    Operator::Scan { table: t, table_identifier: ident.to_string(), predicates: preds, id }
}

fn t1_table() -> Table {
    table("t1", vec![col("id", true), col("a", false), col("x", false)])
}

fn t2_table() -> Table {
    table("t2", vec![col("id2", true), col("b", false), col("y", false)])
}

#[test]
fn null_literal_is_always_false() {
    let e = Expr::Literal(Literal::Null);
    assert_eq!(e.check_constant(), Ok(Some(ConstantPredicate::AlwaysFalse)));
    assert_eq!(e.is_always_false(), Ok(true));
    assert_eq!(e.is_always_true(), Ok(false));
}

#[test]
fn zero_literals_are_always_false() {
    assert_eq!(num("0").is_always_false(), Ok(true));
    assert_eq!(num("0.0").is_always_false(), Ok(true));
    assert_eq!(num("-0").is_always_false(), Ok(true));
    assert_eq!(num("0e10").is_always_false(), Ok(true));
}

#[test]
fn nonzero_literals_are_always_true() {
    assert_eq!(num("1").is_always_true(), Ok(true));
    assert_eq!(num("7").is_always_true(), Ok(true));
    assert_eq!(num("1.5").is_always_true(), Ok(true));
    assert_eq!(num("2e10").is_always_true(), Ok(true));
    assert_eq!(num("9223372036854775808").is_always_true(), Ok(true));
}

#[test]
fn string_literals_coerce_numerically() {
    assert_eq!(string_lit("'0'").is_always_false(), Ok(true));
    assert_eq!(string_lit("'3'").is_always_true(), Ok(true));
    assert_eq!(string_lit("'0.0'").is_always_false(), Ok(true));
    // A non-numeric string constant is falsy.
    assert_eq!(string_lit("'hello'").is_always_false(), Ok(true));
}

#[test]
fn non_constant_stays_unknown() {
    assert_eq!(qualified("t1", "a").check_constant(), Ok(None));
    assert_eq!(Expr::Id("a".to_string()).check_constant(), Ok(None));
}

#[test]
fn not_flips_constant_verdict() {
    // is_always_true(NOT p) == is_always_false(p) and vice versa.
    for p in [num("0"), num("1"), num("0.0"), string_lit("'x'")] {
        let n = not(clone_expr(&p));
        assert_eq!(n.is_always_true(), p.is_always_false());
        assert_eq!(n.is_always_false(), p.is_always_true());
    }
}

#[test]
fn negation_keeps_constant_verdict() {
    let e = Expr::Unary(UnaryOperator::Negative, Box::new(num("5")));
    assert_eq!(e.is_always_true(), Ok(true));
}

#[test]
fn empty_in_list_is_false_negated_true() {
    let inlist = Expr::InList {
        lhs: Box::new(Expr::Id("a".to_string())),
        not: false,
        rhs: Some(vec![]),
    };
    assert_eq!(inlist.is_always_false(), Ok(true));
    let notin = Expr::InList {
        lhs: Box::new(Expr::Id("a".to_string())),
        not: true,
        rhs: None,
    };
    assert_eq!(notin.is_always_true(), Ok(true));
}

#[test]
fn and_or_constant_folding() {
    let and_false = Expr::Binary(
        Box::new(Expr::Id("a".to_string())),
        BinaryOperator::And,
        Box::new(num("0")),
    );
    assert_eq!(and_false.is_always_false(), Ok(true));
    let and_true = Expr::Binary(Box::new(num("1")), BinaryOperator::And, Box::new(num("2")));
    assert_eq!(and_true.is_always_true(), Ok(true));
    let or_true = Expr::Binary(
        Box::new(Expr::Id("a".to_string())),
        BinaryOperator::Or,
        Box::new(num("1")),
    );
    assert_eq!(or_true.is_always_true(), Ok(true));
    let or_unknown = Expr::Binary(
        Box::new(Expr::Id("a".to_string())),
        BinaryOperator::Or,
        Box::new(num("0")),
    );
    assert_eq!(or_unknown.check_constant(), Ok(None));
}

#[test]
fn filter_with_true_predicate_is_removed() {
    // A Filter whose list empties is replaced by its source.
    let inner = scan(t1_table(), "t1", None, 1);
    let filter = Operator::Filter { source: Box::new(inner), predicates: vec![num("1")], id: 2 };
    let (out, res) = eliminate_constants(filter);
    assert_eq!(res, ConstantConditionEliminationResult::Continue);
    assert_eq!(out, scan(t1_table(), "t1", None, 1));
}

#[test]
fn false_predicate_poisons_subtree() {
    let inner = scan(t1_table(), "t1", Some(vec![num("0")]), 1);
    let (_, res) = eliminate_constants(inner);
    assert_eq!(res, ConstantConditionEliminationResult::ImpossibleCondition);
}

#[test]
fn outer_join_keeps_impossible_right_inner_does_not() {
    // Join(outer=true) with an impossible right subtree is retained;
    // the same join with outer=false is replaced by Nothing at the root.
    for (outer, expect_nothing) in [(true, false), (false, true)] {
        let left = scan(t1_table(), "t1", None, 1);
        let right = scan(t2_table(), "t2", Some(vec![num("0")]), 2);
        let join = Operator::Join {
            left: Box::new(left),
            right: Box::new(right),
            predicates: None,
            outer,
            id: 3,
        };
        let plan = Plan {
            root_operator: join,
            referenced_tables: vec![
                (t1_table(), "t1".to_string()),
                (t2_table(), "t2".to_string()),
            ],
        };
        let (out, _cache) = optimize_plan(plan).unwrap();
        if expect_nothing {
            assert_eq!(out.root_operator, Operator::Nothing);
            assert!(out.referenced_tables.is_empty());
        } else {
            match out.root_operator {
                Operator::Join { .. } => {}
                other => panic!("outer join should survive, got {:?}", other),
            }
        }
    }
}

#[test]
fn aggregate_keeps_node_over_impossible_source() {
    // SELECT COUNT(*) FROM t WHERE 0 becomes an Aggregate over Nothing.
    let src = scan(t1_table(), "t1", Some(vec![num("0")]), 1);
    let agg = Operator::Aggregate {
        source: Box::new(src),
        aggregates: vec![Aggregate {
            func: "COUNT".to_string(),
            args: vec![],
            original_expr: Expr::FunctionCallStar { name: "COUNT".to_string() },
        }],
        group_by: None,
        id: 2,
    };
    let plan = Plan {
        root_operator: agg,
        referenced_tables: vec![(t1_table(), "t1".to_string())],
    };
    let (out, _cache) = optimize_plan(plan).unwrap();
    match out.root_operator {
        Operator::Aggregate { source, .. } => assert_eq!(*source, Operator::Nothing),
        other => panic!("aggregate should be kept, got {:?}", other),
    }
}

fn two_table_filter_plan(pred: Expr) -> Plan {
    let left = scan(t1_table(), "t1", None, 1);
    let right = scan(t2_table(), "t2", None, 2);
    let join = Operator::Join {
        left: Box::new(left),
        right: Box::new(right),
        predicates: None,
        outer: false,
        id: 3,
    };
    let filter = Operator::Filter { source: Box::new(join), predicates: vec![pred], id: 4 };
    Plan {
        root_operator: filter,
        referenced_tables: vec![
            (t1_table(), "t1".to_string()),
            (t2_table(), "t2".to_string()),
        ],
    }
}

#[test]
fn single_table_predicate_is_pushed_to_its_scan() {
    // t1 JOIN t2 with filter t1.a = 1: the predicate lands on t1's scan.
    let plan = two_table_filter_plan(eq(qualified("t1", "a"), num("1")));
    let (out, _cache) = optimize_plan(plan).unwrap();
    match out.root_operator {
        Operator::Join { left, predicates, .. } => {
            assert_eq!(predicates, None);
            match *left {
                Operator::Scan { predicates, .. } => {
                    assert_eq!(predicates, Some(vec![eq(qualified("t1", "a"), num("1"))]));
                }
                other => panic!("expected scan on the left, got {:?}", other),
            }
        }
        other => panic!("filter should be elided, got {:?}", other),
    }
}

#[test]
fn cross_table_predicate_lands_on_rightmost_scan() {
    // Filter t1.x = t2.y references t2 and a table joined to its left, so
    // the positional rule lets t2's scan evaluate it.
    let plan = two_table_filter_plan(eq(qualified("t1", "x"), qualified("t2", "y")));
    let (out, _cache) = optimize_plan(plan).unwrap();
    match out.root_operator {
        Operator::Join { left, right, predicates, .. } => {
            assert_eq!(predicates, None);
            match *left {
                Operator::Scan { predicates, .. } => assert_eq!(predicates, None),
                other => panic!("unexpected left {:?}", other),
            }
            match *right {
                Operator::Scan { predicates, .. } => {
                    assert_eq!(predicates, Some(vec![eq(qualified("t1", "x"), qualified("t2", "y"))]));
                }
                other => panic!("unexpected right {:?}", other),
            }
        }
        other => panic!("filter should be elided, got {:?}", other),
    }
}

#[test]
fn cross_table_predicate_becomes_join_condition_when_scans_cannot_take_it() {
    // When neither side can absorb the predicate (the right side is
    // already a point lookup, which absorbs nothing), an inner join whose
    // two sides it references takes it as a join-ON predicate.
    let left = scan(t1_table(), "t1", None, 1);
    let right = Operator::SeekRowid {
        table: t2_table(),
        table_identifier: "t2".to_string(),
        rowid_predicate: num("7"),
        predicates: None,
        id: 2,
    };
    let join = Operator::Join {
        left: Box::new(left),
        right: Box::new(right),
        predicates: None,
        outer: false,
        id: 3,
    };
    let filter = Operator::Filter {
        source: Box::new(join),
        predicates: vec![eq(qualified("t1", "x"), qualified("t2", "y"))],
        id: 4,
    };
    let tables = vec![(t1_table(), "t1".to_string()), (t2_table(), "t2".to_string())];
    let out = push_predicates(filter, &tables);
    match out {
        Operator::Join { predicates, .. } => {
            assert_eq!(predicates, Some(vec![eq(qualified("t1", "x"), qualified("t2", "y"))]));
        }
        other => panic!("filter should be elided into the join, got {:?}", other),
    }
}

#[test]
fn outer_join_never_pushes_on_predicate_into_left_scan() {
    // t1 LEFT JOIN t2 ON t1.a = 5: positionally the predicate could sit on
    // t1's scan, but the outer join forbids filtering the preserved side;
    // it is pushed into the right side instead.
    let left = scan(t1_table(), "t1", None, 1);
    let right = scan(t2_table(), "t2", None, 2);
    let join = Operator::Join {
        left: Box::new(left),
        right: Box::new(right),
        predicates: Some(vec![eq(qualified("t1", "a"), num("5"))]),
        outer: true,
        id: 3,
    };
    let tables = vec![(t1_table(), "t1".to_string()), (t2_table(), "t2".to_string())];
    let out = push_predicates(join, &tables);
    match out {
        Operator::Join { left, right, predicates, .. } => {
            assert_eq!(predicates, Some(vec![]));
            match *left {
                Operator::Scan { predicates, .. } => assert_eq!(predicates, None),
                other => panic!("unexpected left {:?}", other),
            }
            match *right {
                Operator::Scan { predicates, .. } => {
                    assert_eq!(predicates, Some(vec![eq(qualified("t1", "a"), num("5"))]));
                }
                other => panic!("unexpected right {:?}", other),
            }
        }
        other => panic!("join expected, got {:?}", other),
    }
}

#[test]
fn primary_key_equality_becomes_seek_rowid() {
    // SELECT * FROM t1 WHERE id = 7: the scan becomes a point lookup with
    // key 7 and no residual filters.
    let root = scan(t1_table(), "t1", Some(vec![eq(Expr::Id("id".to_string()), num("7"))]), 1);
    let plan = Plan {
        root_operator: root,
        referenced_tables: vec![(t1_table(), "t1".to_string())],
    };
    let (out, _cache) = optimize_plan(plan).unwrap();
    match out.root_operator {
        Operator::SeekRowid { rowid_predicate, predicates, id, .. } => {
            assert_eq!(rowid_predicate, num("7"));
            assert_eq!(predicates, None);
            assert_eq!(id, 1);
        }
        other => panic!("expected a point lookup, got {:?}", other),
    }
}

#[test]
fn seek_rowid_keeps_residual_filters() {
    // WHERE id = 7 AND name = 'x' leaves name = 'x' as a residual filter.
    let residual = eq(Expr::Id("a".to_string()), string_lit("'x'"));
    let root = scan(
        t1_table(),
        "t1",
        Some(vec![eq(Expr::Id("id".to_string()), num("7")), clone_expr(&residual)]),
        1,
    );
    let plan = Plan {
        root_operator: root,
        referenced_tables: vec![(t1_table(), "t1".to_string())],
    };
    let (out, _cache) = optimize_plan(plan).unwrap();
    match out.root_operator {
        Operator::SeekRowid { rowid_predicate, predicates, .. } => {
            assert_eq!(rowid_predicate, num("7"));
            assert_eq!(predicates, Some(vec![residual]));
        }
        other => panic!("expected a point lookup, got {:?}", other),
    }
}

#[test]
fn ambiguous_bare_primary_key_name_is_an_error() {
    // Both tables have a primary-key column named "id".
    let ta = table("ta", vec![col("id", true)]);
    let tb = table("tb", vec![col("id", true)]);
    let tables = vec![(ta.clone(), "ta".to_string()), (tb, "tb".to_string())];
    let root = scan(ta, "ta", Some(vec![eq(Expr::Id("id".to_string()), num("7"))]), 1);
    let plan = Plan { root_operator: root, referenced_tables: tables };
    match optimize_plan(plan) {
        Err(OptimizeError::AmbiguousColumnName(n)) => assert_eq!(n, "id"),
        Err(other) => panic!("expected an ambiguous-column error, got {:?}", other),
        Ok(_) => panic!("expected an ambiguous-column error, got a plan"),
    }
}

fn sum_b() -> Expr {
    Expr::FunctionCall {
        name: "SUM".to_string(),
        args: Some(vec![Expr::Id("b".to_string())]),
    }
}

#[test]
fn order_by_aggregate_records_precomputation_key() {
    // SELECT a, SUM(b) FROM t GROUP BY a ORDER BY SUM(b): the Order node's
    // sort key is linked to the Aggregate's result position.
    let t = table("t", vec![col("a", false), col("b", false)]);
    let agg = Operator::Aggregate {
        source: Box::new(scan(t.clone(), "t", None, 1)),
        aggregates: vec![Aggregate {
            func: "SUM".to_string(),
            args: vec![Expr::Id("b".to_string())],
            original_expr: sum_b(),
        }],
        group_by: Some(vec![Expr::Id("a".to_string())]),
        id: 2,
    };
    let order = Operator::Order {
        source: Box::new(agg),
        key: vec![(sum_b(), Direction::Ascending)],
        id: 3,
    };
    let projection = Operator::Projection {
        source: Box::new(order),
        expressions: vec![
            ProjectionColumn::Column(Expr::Id("a".to_string())),
            ProjectionColumn::Column(sum_b()),
        ],
        id: 4,
    };
    let plan = Plan {
        root_operator: projection,
        referenced_tables: vec![(t, "t".to_string())],
    };
    let (out, mut cache) = optimize_plan(plan).unwrap();
    // Simulate code generation recording where the aggregate's result went.
    cache.cache_result_register(2, 0, 42, sum_b());
    let hits = cache.get_cached_result_registers(3, 0).expect("sort key should be linked");
    assert_eq!(hits.len(), 1);
    assert_eq!(hits[0].register_idx, 42);
    assert_eq!(hits[0].source_expr, sum_b());
    // The tree itself is not mutated by the cache pass.
    match out.root_operator {
        Operator::Projection { .. } => {}
        other => panic!("projection expected, got {:?}", other),
    }
}

#[test]
fn cache_pass_alone_populates_nothing_for_scan() {
    let mut cache = ExpressionResultCache::new();
    let root = scan(t1_table(), "t1", None, 1);
    find_shared_expressions_in_child_operators_and_mark_them_so_that_the_parent_operator_doesnt_recompute_them(&root, &mut cache);
    assert!(cache.get_cached_result_registers(1, 0).is_none());
}

#[test]
fn use_indexes_is_idempotent_on_its_output() {
    let tables = vec![(t1_table(), "t1".to_string())];
    let root = scan(t1_table(), "t1", Some(vec![eq(Expr::Id("id".to_string()), num("7"))]), 1);
    let once = use_indexes(root, &tables).unwrap();
    let root_again = scan(t1_table(), "t1", Some(vec![eq(Expr::Id("id".to_string()), num("7"))]), 1);
    let once_b = use_indexes(root_again, &tables).unwrap();
    let twice = use_indexes(once, &tables).unwrap();
    assert_eq!(twice, once_b);
}

#[test]
fn optimization_pipeline_is_idempotent() {
    // Running the full pipeline twice produces no further change.
    let make = || two_table_filter_plan(eq(qualified("t1", "a"), num("1")));
    let (once, _) = optimize_plan(make()).unwrap();
    let (once_again, _) = optimize_plan(make()).unwrap();
    let (twice, _) = optimize_plan(once).unwrap();
    assert_eq!(twice, once_again);
}

#[test]
fn optimization_pipeline_is_idempotent_on_seek_plans() {
    let make = || {
        Plan {
            root_operator: scan(
                t1_table(),
                "t1",
                Some(vec![eq(Expr::Id("id".to_string()), num("7")), num("1")]),
                1,
            ),
            referenced_tables: vec![(t1_table(), "t1".to_string())],
        }
    };
    let (once, _) = optimize_plan(make()).unwrap();
    let (once_again, _) = optimize_plan(make()).unwrap();
    let (twice, _) = optimize_plan(once).unwrap();
    assert_eq!(twice, once_again);
}

/// Structural copy for test inputs (the library's types are deliberately
/// not `Clone`).
fn clone_expr(e: &Expr) -> Expr {
    match e {
        Expr::Literal(Literal::Null) => Expr::Literal(Literal::Null),
        Expr::Literal(Literal::Numeric(s)) => Expr::Literal(Literal::Numeric(s.clone())),
        Expr::Literal(Literal::Str(s)) => Expr::Literal(Literal::Str(s.clone())),
        Expr::Id(s) => Expr::Id(s.clone()),
        Expr::Qualified(a, b) => Expr::Qualified(a.clone(), b.clone()),
        Expr::Binary(l, o, r) => Expr::Binary(Box::new(clone_expr(l)), *o, Box::new(clone_expr(r))),
        Expr::Unary(o, x) => Expr::Unary(*o, Box::new(clone_expr(x))),
        _ => panic!("clone_expr: unsupported shape in tests"),
    }
}

#[test]
fn identifier_comparison_is_case_insensitive_and_unquoted() {
    // The scan's predicate names the primary key as `"ID"` (quoted, upper
    // case); normalization still recognizes it.
    let root = scan(
        t1_table(),
        "t1",
        Some(vec![eq(Expr::Id("\"ID\"".to_string()), num("7"))]),
        1,
    );
    let plan = Plan {
        root_operator: root,
        referenced_tables: vec![(t1_table(), "t1".to_string())],
    };
    let (out, _cache) = optimize_plan(plan).unwrap();
    match out.root_operator {
        Operator::SeekRowid { rowid_predicate, .. } => assert_eq!(rowid_predicate, num("7")),
        other => panic!("expected a point lookup, got {:?}", other),
    }
}

#[test]
fn cached_lookup_without_recorded_register_is_none() {
    let mut cache = ExpressionResultCache::new();
    // A precomputation key alone is not enough: no register was recorded.
    cache.set_precomputation_key(3, 0, 2, 1);
    assert!(cache.get_cached_result_registers(3, 0).is_none());
    // And an unknown key has no entry at all.
    assert!(cache.get_cached_result_registers(9, 9).is_none());
}

#[test]
fn limit_over_impossible_source_collapses() {
    let src = scan(t1_table(), "t1", Some(vec![num("0")]), 1);
    let limit = Operator::Limit { source: Box::new(src), limit: 10, id: 2 };
    let plan = Plan {
        root_operator: limit,
        referenced_tables: vec![(t1_table(), "t1".to_string())],
    };
    let (out, _cache) = optimize_plan(plan).unwrap();
    assert_eq!(out.root_operator, Operator::Nothing);
    assert!(out.referenced_tables.is_empty());
}

#[test]
fn join_on_list_drops_true_keeps_rest() {
    let left = scan(t1_table(), "t1", None, 1);
    let right = scan(t2_table(), "t2", None, 2);
    let join = Operator::Join {
        left: Box::new(left),
        right: Box::new(right),
        predicates: Some(vec![num("1"), eq(qualified("t1", "x"), qualified("t2", "y"))]),
        outer: false,
        id: 3,
    };
    let (out, res) = eliminate_constants(join);
    assert_eq!(res, ConstantConditionEliminationResult::Continue);
    match out {
        Operator::Join { predicates, .. } => {
            assert_eq!(predicates, Some(vec![eq(qualified("t1", "x"), qualified("t2", "y"))]));
        }
        other => panic!("join expected, got {:?}", other),
    }
}

#[test]
fn string_literal_trimming_handles_stacked_quotes() {
    assert_eq!(string_lit("''0''").is_always_false(), Ok(true));
    assert_eq!(string_lit("''''").is_always_false(), Ok(true));
    assert_eq!(string_lit("'' '7' ''").is_always_false(), Ok(true));
}
