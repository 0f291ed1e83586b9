//! A logical query-plan optimizer for a small relational engine.
//!
//! The optimizer rewrites an operator tree produced by a planner into an
//! equivalent but cheaper one: it drops trivially true predicates and
//! collapses subtrees proven to yield no rows, pushes predicates toward the
//! scans that can evaluate them, turns primary-key equality scans into point
//! lookups, and records which parent expressions a child operator already
//! computes so that code generation can reuse the result.
pub mod cache;
pub mod expr;
pub mod laws;
pub mod numeric;
pub mod optimizer;
pub mod plan;
pub mod schema;
