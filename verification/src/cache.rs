//! The expression-result cache handed to code generation.
//!
//! During execution, a child operator's computed expressions land in VM
//! registers. Code generation records where (`cache_result_register`); the
//! optimizer records which parent output positions are already computed by
//! which child positions (`set_precomputation_key`); code generation then
//! looks the registers up (`get_cached_result_registers`) instead of
//! recomputing.
//!
//! Both maps are keyed by a composite integer `operator_id * 10000 +
//! result_column_idx`, so an operator id is capped at 100 000 and a result
//! column index at 10 000.
use vstd::prelude::*;

use crate::expr::{Expr, ExprV, expr_view};
use std::collections::HashMap;

verus! {

/// The composite-key multiplier: one slot of 10 000 column positions per
/// operator id.
pub const OPERATOR_ID_MULTIPLIER: usize = 10000;

/// Largest operator id the composite key scheme supports.
pub const MAX_OPERATOR_ID: usize = 100000;

/// A result recorded by code generation: the register an expression's
/// value lives in, and the expression itself for later comparison.
#[derive(Debug, PartialEq)]
pub struct CachedResult {
    pub register_idx: usize,
    pub source_expr: Expr,
}

/// The mathematical value of a `CachedResult`.
pub struct CachedResultV {
    pub register_idx: usize,
    pub source_expr: ExprV,
}

pub open spec fn cached_result_view(c: CachedResult) -> CachedResultV {
    CachedResultV { register_idx: c.register_idx, source_expr: expr_view(c.source_expr) }
}

impl View for CachedResult {
    type V = CachedResultV;

    open spec fn view(&self) -> CachedResultV {
        cached_result_view(*self)
    }
}

/// The composite key of one result column of one operator.
pub open spec fn composite_key(operator_id: usize, result_column_idx: usize) -> usize {
    (operator_id * 10000 + result_column_idx) as usize
}

/// The composite keys of the child positions named by `mask` (bits
/// `from` and up), in ascending bit order.
pub open spec fn mask_keys_from(child_operator_id: usize, mask: u64, from: int) -> Seq<usize>
    decreases 64 - from,
{
    if from < 0 || from >= 64 {
        Seq::empty()
    } else if (mask >> (from as u64)) & 1 == 1 {
        seq![composite_key(child_operator_id, from as usize)] + mask_keys_from(
            child_operator_id,
            mask,
            from + 1,
        )
    } else {
        mask_keys_from(child_operator_id, mask, from + 1)
    }
}

/// The cached results found for a key list, in list order, skipping keys
/// with no recorded register.
pub open spec fn gathered(
    resultmap: Map<usize, CachedResultV>,
    keys: Seq<usize>,
    from: int,
) -> Seq<CachedResultV>
    decreases keys.len() - from,
{
    if from < 0 || from >= keys.len() {
        Seq::empty()
    } else if resultmap.contains_key(keys[from]) {
        seq![resultmap[keys[from]]] + gathered(resultmap, keys, from + 1)
    } else {
        gathered(resultmap, keys, from + 1)
    }
}

/// The mathematical value of an `ExpressionResultCache`.
pub struct ExpressionResultCacheV {
    pub resultmap: Map<usize, CachedResultV>,
    pub keymap: Map<usize, Seq<usize>>,
}

/// A cache of the VM registers that hold results of expressions computed
/// in the query plan, so a parent operator can reuse what a child already
/// computed (e.g. `SELECT t.a, SUM(t.b) FROM t GROUP BY t.a ORDER BY
/// SUM(t.b)` computes `SUM(t.b)` once).
pub struct ExpressionResultCache {
    resultmap: HashMap<usize, CachedResult>,
    keymap: HashMap<usize, Vec<usize>>,
}

impl View for ExpressionResultCache {
    type V = ExpressionResultCacheV;

    closed spec fn view(&self) -> ExpressionResultCacheV {
        let rm = self.resultmap@;
        let km = self.keymap@;
        ExpressionResultCacheV {
            resultmap: Map::new(
                |k: usize| rm.contains_key(k),
                |k: usize| cached_result_view(rm[k]),
            ),
            keymap: Map::new(|k: usize| km.contains_key(k), |k: usize| km[k]@),
        }
    }
}

impl ExpressionResultCache {
    /// An empty cache; one is created per optimization run.
    pub fn new() -> (r: Self)
        ensures
            r@.resultmap == Map::<usize, CachedResultV>::empty(),
            r@.keymap == Map::<usize, Seq<usize>>::empty(),
    {
        let r = ExpressionResultCache { resultmap: HashMap::new(), keymap: HashMap::new() };
        proof {
            assert(r@.resultmap =~= Map::<usize, CachedResultV>::empty());
            assert(r@.keymap =~= Map::<usize, Seq<usize>>::empty());
        }
        r
    }

    /// Record that the result of `expr`, computed as result column
    /// `result_column_idx` of operator `operator_id`, lives in register
    /// `register_idx`.
    pub fn cache_result_register(
        &mut self,
        operator_id: usize,
        result_column_idx: usize,
        register_idx: usize,
        expr: Expr,
    )
        requires
            operator_id <= MAX_OPERATOR_ID,
            result_column_idx < OPERATOR_ID_MULTIPLIER,
        ensures
            final(self)@.resultmap == old(self)@.resultmap.insert(
                composite_key(operator_id, result_column_idx),
                CachedResultV { register_idx, source_expr: expr_view(expr) },
            ),
            final(self)@.keymap == old(self)@.keymap,
    {
        let key = operator_id * OPERATOR_ID_MULTIPLIER + result_column_idx;
        self.resultmap.insert(key, CachedResult { register_idx, source_expr: expr });
        proof {
            assert(self@.resultmap =~= old(self)@.resultmap.insert(
                composite_key(operator_id, result_column_idx),
                CachedResultV { register_idx, source_expr: expr_view(expr) },
            ));
            assert(self@.keymap =~= old(self)@.keymap);
        }
    }

    /// Record that the parent operator's result column
    /// `result_column_idx` is already computed by the child operator's
    /// result columns named by `child_operator_result_column_idx_mask`.
    pub fn set_precomputation_key(
        &mut self,
        operator_id: usize,
        result_column_idx: usize,
        child_operator_id: usize,
        child_operator_result_column_idx_mask: u64,
    )
        requires
            operator_id <= MAX_OPERATOR_ID,
            result_column_idx < OPERATOR_ID_MULTIPLIER,
            child_operator_id <= MAX_OPERATOR_ID,
        ensures
            final(self)@.keymap == old(self)@.keymap.insert(
                composite_key(operator_id, result_column_idx),
                mask_keys_from(child_operator_id, child_operator_result_column_idx_mask, 0),
            ),
            final(self)@.resultmap == old(self)@.resultmap,
    {
        let key = operator_id * OPERATOR_ID_MULTIPLIER + result_column_idx;
        let mask = child_operator_result_column_idx_mask;
        let mut values: Vec<usize> = Vec::new();
        let mut i: usize = 0;
        proof {
            assert(mask_keys_from(child_operator_id, mask, 0) =~= values@ + mask_keys_from(
                child_operator_id,
                mask,
                0,
            ));
        }
        while i < 64
            invariant
                i <= 64,
                child_operator_id <= MAX_OPERATOR_ID,
                mask_keys_from(child_operator_id, mask, 0) == values@ + mask_keys_from(
                    child_operator_id,
                    mask,
                    i as int,
                ),
            decreases 64 - i,
        {
            let ghost values0 = values@;
            if (mask >> (i as u64)) & 1 == 1 {
                values.push(child_operator_id * OPERATOR_ID_MULTIPLIER + i);
                proof {
                    assert(values@ =~= values0 + seq![
                        composite_key(child_operator_id, i as usize),
                    ]);
                    assert(values0 + (seq![composite_key(child_operator_id, i as usize)]
                        + mask_keys_from(child_operator_id, mask, i + 1)) =~= values@
                        + mask_keys_from(child_operator_id, mask, i + 1));
                }
            }
            i = i + 1;
        }
        proof {
            assert(mask_keys_from(child_operator_id, mask, 64) =~= Seq::<usize>::empty());
            assert(values@ + Seq::<usize>::empty() =~= values@);
        }
        self.keymap.insert(key, values);
        proof {
            assert(self@.keymap =~= old(self)@.keymap.insert(
                composite_key(operator_id, result_column_idx),
                mask_keys_from(child_operator_id, mask, 0),
            ));
            assert(self@.resultmap =~= old(self)@.resultmap);
        }
    }

    /// The cache entries recorded for one result column of one operator:
    /// the registers of every child position that computes it, in key
    /// order. `None` when nothing useful was recorded.
    pub fn get_cached_result_registers(
        &self,
        operator_id: usize,
        result_column_idx: usize,
    ) -> (r: Option<Vec<&CachedResult>>)
        requires
            operator_id <= MAX_OPERATOR_ID,
            result_column_idx < OPERATOR_ID_MULTIPLIER,
        ensures
            ({
                let key = composite_key(operator_id, result_column_idx);
                match r {
                    Option::Some(v) => {
                        &&& self@.keymap.contains_key(key)
                        &&& v@.len() > 0
                        &&& v@.len() == gathered(self@.resultmap, self@.keymap[key], 0).len()
                        &&& forall|i: int| 0 <= i < v@.len() ==> cached_result_view(
                            *(#[trigger] v@[i]),
                        ) == gathered(self@.resultmap, self@.keymap[key], 0)[i]
                    },
                    Option::None => !self@.keymap.contains_key(key) || gathered(
                        self@.resultmap,
                        self@.keymap[key],
                        0,
                    ).len() == 0,
                }
            }),
    {
        let key = operator_id * OPERATOR_ID_MULTIPLIER + result_column_idx;
        let keys = match self.keymap.get(&key) {
            Option::None => {
                return Option::None;
            },
            Option::Some(keys) => keys,
        };
        let ghost gkeys = keys@;
        let mut results: Vec<&CachedResult> = Vec::new();
        let n = keys.len();
        let mut i: usize = 0;
        proof {
            assert(self@.keymap[composite_key(operator_id, result_column_idx)] == gkeys);
        }
        while i < n
            invariant
                i <= n,
                n == gkeys.len(),
                keys@ == gkeys,
                results@.len() == gathered(self@.resultmap, gkeys, 0).len() - gathered(
                    self@.resultmap,
                    gkeys,
                    i as int,
                ).len(),
                gathered(self@.resultmap, gkeys, 0) == results@.map_values(
                    |c: &CachedResult| cached_result_view(*c),
                ) + gathered(self@.resultmap, gkeys, i as int),
            decreases n - i,
        {
            let ghost results0 = results@;
            match self.resultmap.get(&keys[i]) {
                Option::Some(result) => {
                    results.push(result);
                    proof {
                        assert(self@.resultmap.contains_key(gkeys[i as int]));
                        assert(cached_result_view(*result) == self@.resultmap[gkeys[i as int]]);
                        assert(results@.map_values(|c: &CachedResult| cached_result_view(*c))
                            =~= results0.map_values(|c: &CachedResult| cached_result_view(*c))
                            + seq![self@.resultmap[gkeys[i as int]]]);
                        assert(results0.map_values(|c: &CachedResult| cached_result_view(*c)) + (
                        seq![self@.resultmap[gkeys[i as int]]] + gathered(
                            self@.resultmap,
                            gkeys,
                            i + 1,
                        )) =~= results@.map_values(|c: &CachedResult| cached_result_view(*c))
                            + gathered(self@.resultmap, gkeys, i + 1));
                    }
                },
                Option::None => {
                    proof {
                        assert(!self@.resultmap.contains_key(gkeys[i as int]));
                    }
                },
            }
            i = i + 1;
        }
        proof {
            assert(gathered(self@.resultmap, gkeys, n as int) =~= Seq::<CachedResultV>::empty());
            assert(gathered(self@.resultmap, gkeys, 0) =~= results@.map_values(
                |c: &CachedResult| cached_result_view(*c),
            ));
        }
        if results.len() == 0 {
            Option::None
        } else {
            proof {
                assert(forall|i: int| 0 <= i < results@.len() ==> cached_result_view(
                    *(#[trigger] results@[i]),
                ) == gathered(
                    self@.resultmap,
                    self@.keymap[composite_key(operator_id, result_column_idx)],
                    0,
                )[i]);
            }
            Option::Some(results)
        }
    }
}

} // verus!
