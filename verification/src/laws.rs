//! General properties of the optimizer, stated and proved once for all
//! inputs.
use vstd::prelude::*;

use crate::cache::ExpressionResultCacheV;
use crate::expr::{ExprV, LiteralV, UnaryOperator};
use crate::numeric::{is_numeric_literal, numeric_is_zero};
use crate::optimizer::{
    always_false, always_true, check_constant_spec, elim_list, elim_op, optimize_spec,
    push_preds_spec, use_indexes_spec,
};
use crate::plan::{OperatorV, PlanV};
use crate::schema::TableV;

verus! {

/// A `NULL` literal is false of every row; a numeric literal is false of
/// every row exactly when it denotes zero, and true of every row
/// otherwise.
pub proof fn lemma_constant_literal_truthiness(s: Seq<char>)
    ensures
        always_false(ExprV::Literal(LiteralV::Null)),
        is_numeric_literal(s) && numeric_is_zero(s) ==> always_false(
            ExprV::Literal(LiteralV::Numeric(s)),
        ),
        is_numeric_literal(s) && !numeric_is_zero(s) ==> always_true(
            ExprV::Literal(LiteralV::Numeric(s)),
        ),
{
}

/// `NOT p` is always true exactly when `p` is always false, and vice
/// versa, for every constant-classifiable `p`.
pub proof fn lemma_not_flips_constant(e: ExprV)
    requires
        check_constant_spec(e) is Some,
    ensures
        always_true(ExprV::Unary(UnaryOperator::Not, Box::new(e))) == always_false(e),
        always_false(ExprV::Unary(UnaryOperator::Not, Box::new(e))) == always_true(e),
{
}

/// A predicate list of trivially true entries eliminates to the empty
/// list without poisoning the conjunction.
proof fn lemma_elim_list_all_true(ps: Seq<ExprV>, outer: bool)
    requires
        forall|i: int| 0 <= i < ps.len() ==> always_true(#[trigger] ps[i]),
    ensures
        elim_list(ps, outer).0 == Seq::<ExprV>::empty(),
        elim_list(ps, outer).1 == false,
    decreases ps,
{
    if ps.len() > 0 {
        assert(forall|i: int| 0 <= i < ps.drop_first().len() ==> always_true(
            #[trigger] ps.drop_first()[i],
        ));
        lemma_elim_list_all_true(ps.drop_first(), outer);
    }
}

/// A `Filter` whose predicate list empties under elimination is removed:
/// what stands in its place is its source, eliminated in its turn.
pub proof fn lemma_filter_emptied_is_elided(source: OperatorV, ps: Seq<ExprV>, id: usize)
    requires
        forall|i: int| 0 <= i < ps.len() ==> always_true(#[trigger] ps[i]),
    ensures
        elim_op(OperatorV::Filter { source: Box::new(source), predicates: ps, id }).0 == elim_op(
            source,
        ).0,
        elim_op(OperatorV::Filter { source: Box::new(source), predicates: ps, id }).1 == false,
{
    lemma_elim_list_all_true(ps, false);
}

/// An outer join's ON-list never poisons the join.
proof fn lemma_elim_list_outer_never_poisons(ps: Seq<ExprV>)
    ensures
        elim_list(ps, true).1 == false,
    decreases ps,
{
    if ps.len() > 0 {
        lemma_elim_list_outer_never_poisons(ps.drop_first());
    }
}

/// A join whose right subtree is impossible is itself impossible when
/// inner, but survives when outer: outer-join NULL-extension still
/// produces left rows, so the optimizer keeps the join.
pub proof fn lemma_outer_join_keeps_impossible_right(
    l: OperatorV,
    r: OperatorV,
    ps: Option<Seq<ExprV>>,
    id: usize,
)
    requires
        elim_op(l).1 == false,
        elim_op(r).1 == true,
    ensures
        elim_op(
            OperatorV::Join {
                left: Box::new(l),
                right: Box::new(r),
                predicates: ps,
                outer: true,
                id,
            },
        ).1 == false,
        elim_op(
            OperatorV::Join {
                left: Box::new(l),
                right: Box::new(r),
                predicates: ps,
                outer: true,
                id,
            },
        ).0 matches OperatorV::Join { .. },
        elim_op(
            OperatorV::Join {
                left: Box::new(l),
                right: Box::new(r),
                predicates: ps,
                outer: false,
                id,
            },
        ).1 == true,
{
    match ps {
        Option::Some(list) => {
            lemma_elim_list_outer_never_poisons(list);
        },
        Option::None => {},
    }
}

/// A whole plan proven impossible collapses to the `Nothing` plan with no
/// referenced tables and an empty cache.
pub proof fn lemma_impossible_plan_collapses(p: PlanV)
    requires
        elim_op(push_preds_spec(p.root_operator, p.referenced_tables)).1 == true,
    ensures
        optimize_spec(p) == Result::<(PlanV, ExpressionResultCacheV), Seq<char>>::Ok(
            (
                PlanV {
                    root_operator: OperatorV::Nothing,
                    referenced_tables: Seq::<(TableV, Seq<char>)>::empty(),
                },
                ExpressionResultCacheV { resultmap: Map::empty(), keymap: Map::empty() },
            ),
        ),
{
}

/// An `Aggregate` over an impossible source keeps the aggregate and
/// empties only its input: an aggregate over zero rows can still produce
/// a row.
pub proof fn lemma_aggregate_keeps_impossible_source(
    src: OperatorV,
    aggregates: Seq<crate::plan::AggregateV>,
    group_by: Option<Seq<ExprV>>,
    id: usize,
)
    requires
        elim_op(src).1 == true,
    ensures
        elim_op(
            OperatorV::Aggregate { source: Box::new(src), aggregates, group_by, id },
        ).0 == (OperatorV::Aggregate {
            source: Box::new(OperatorV::Nothing),
            aggregates,
            group_by,
            id,
        }),
        elim_op(OperatorV::Aggregate { source: Box::new(src), aggregates, group_by, id }).1
            == false,
{
}

/// Index selection is idempotent: running it again over its own output
/// changes nothing.
pub proof fn lemma_use_indexes_idempotent(op: OperatorV, tables: Seq<(TableV, Seq<char>)>)
    ensures
        (match use_indexes_spec(op, tables) {
            Result::Ok(o) => use_indexes_spec(o, tables) == Result::<OperatorV, Seq<char>>::Ok(o),
            Result::Err(_) => true,
        }),
    decreases op,
{
    match op {
        OperatorV::Filter { source, .. } => {
            lemma_use_indexes_idempotent(*source, tables);
        },
        OperatorV::Join { left, right, .. } => {
            lemma_use_indexes_idempotent(*left, tables);
            lemma_use_indexes_idempotent(*right, tables);
        },
        OperatorV::Aggregate { source, .. } => {
            lemma_use_indexes_idempotent(*source, tables);
        },
        OperatorV::Limit { source, .. } => {
            lemma_use_indexes_idempotent(*source, tables);
        },
        OperatorV::Order { source, .. } => {
            lemma_use_indexes_idempotent(*source, tables);
        },
        OperatorV::Projection { source, .. } => {
            lemma_use_indexes_idempotent(*source, tables);
        },
        _ => {},
    }
}


/// Elimination of one predicate list is idempotent.
proof fn lemma_elim_list_idempotent(ps: Seq<ExprV>, outer: bool)
    ensures
        elim_list(elim_list(ps, outer).0, outer) == elim_list(ps, outer),
    decreases ps,
{
    if ps.len() == 0 {
    } else if always_true(ps[0]) {
        lemma_elim_list_idempotent(ps.drop_first(), outer);
    } else if always_false(ps[0]) && !outer {
    } else {
        let t = ps.drop_first();
        lemma_elim_list_idempotent(t, outer);
        let ro = elim_list(t, outer).0;
        let out = seq![ps[0]] + ro;
        assert(out[0] == ps[0]);
        assert(out.drop_first() =~= ro);
    }
}

/// Whether constant elimination finds nothing impossible anywhere in the
/// subtree.
pub open spec fn all_possible(op: OperatorV) -> bool
    decreases op,
{
    elim_op(op).1 == false && match op {
        OperatorV::Filter { source, .. } => all_possible(*source),
        OperatorV::Join { left, right, .. } => all_possible(*left) && all_possible(*right),
        OperatorV::Aggregate { source, .. } => all_possible(*source),
        OperatorV::Limit { source, .. } => all_possible(*source),
        OperatorV::Order { source, .. } => all_possible(*source),
        OperatorV::Projection { source, .. } => all_possible(*source),
        _ => true,
    }
}

/// Constant elimination is idempotent on a subtree in which it finds
/// nothing impossible: eliminating its own output changes nothing. (When
/// an impossible subtree survives under an outer join, the parts of it
/// beyond the first impossibility are left unprocessed, and a second run
/// may still simplify them; such trees are excluded here.)
pub proof fn lemma_elimination_idempotent(op: OperatorV)
    requires
        all_possible(op),
    ensures
        elim_op(elim_op(op).0).0 == elim_op(op).0,
        elim_op(elim_op(op).0).1 == false,
        all_possible(elim_op(op).0),
    decreases op,
{
    match op {
        OperatorV::Filter { source, predicates, id } => {
            lemma_elim_list_idempotent(predicates, false);
            lemma_elimination_idempotent(*source);
            let ps2 = elim_list(predicates, false).0;
            let s2 = elim_op(*source).0;
            assert(!elim_list(predicates, false).1);
            assert(elim_list(ps2, false) == (ps2, false));
            if ps2.len() == 0 {
                assert(elim_op(op).0 == s2);
            } else {
                assert(elim_op(op).0 == (OperatorV::Filter {
                    source: Box::new(s2),
                    predicates: ps2,
                    id,
                }));
                assert(elim_op(elim_op(op).0).0 == (OperatorV::Filter {
                    source: Box::new(elim_op(s2).0),
                    predicates: ps2,
                    id,
                }));
            }
        },
        OperatorV::Join { left, right, predicates, outer, id } => {
            lemma_elimination_idempotent(*left);
            lemma_elimination_idempotent(*right);
            let l2 = elim_op(*left).0;
            let r2 = elim_op(*right).0;
            match predicates {
                Option::Some(ps) => {
                    lemma_elim_list_idempotent(ps, outer);
                    let ps2 = elim_list(ps, outer).0;
                    assert(!elim_list(ps, outer).1);
                    assert(elim_op(op).0 == (OperatorV::Join {
                        left: Box::new(l2),
                        right: Box::new(r2),
                        predicates: Option::Some(ps2),
                        outer,
                        id,
                    }));
                    assert(elim_list(ps2, outer) == (ps2, false));
                },
                Option::None => {
                    assert(elim_op(op).0 == (OperatorV::Join {
                        left: Box::new(l2),
                        right: Box::new(r2),
                        predicates: Option::None,
                        outer,
                        id,
                    }));
                },
            }
        },
        OperatorV::Aggregate { source, aggregates, group_by, id } => {
            lemma_elimination_idempotent(*source);
            let s2 = elim_op(*source).0;
            assert(elim_op(op).0 == (OperatorV::Aggregate {
                source: Box::new(s2),
                aggregates,
                group_by,
                id,
            }));
        },
        OperatorV::SeekRowid { predicates, .. } => {
            match predicates {
                Option::Some(ps) => {
                    lemma_elim_list_idempotent(ps, false);
                },
                Option::None => {},
            }
        },
        OperatorV::Limit { source, .. } => {
            lemma_elimination_idempotent(*source);
        },
        OperatorV::Order { source, .. } => {
            lemma_elimination_idempotent(*source);
        },
        OperatorV::Projection { source, .. } => {
            lemma_elimination_idempotent(*source);
        },
        OperatorV::Scan { predicates, .. } => {
            match predicates {
                Option::Some(ps) => {
                    lemma_elim_list_idempotent(ps, false);
                },
                Option::None => {},
            }
        },
        OperatorV::Nothing => {},
    }
}

} // verus!

