//! A small columnar query engine.
//!
//! Queries are built as logical plans through a `DataFrame`, translated by
//! the `QueryPlanner` into physical plans, and run over in-memory tables of
//! record batches. Every function here is verified: its contract states
//! the values it computes, over the spec views of columns (`cells`),
//! batches and plans.
use vstd::prelude::*;

pub mod aggregate;
pub mod array;
pub mod batch;
pub mod catalog;
pub mod data_frame;
pub mod datatype;
pub mod display;
pub mod error;
pub mod floats;
pub mod join;
pub mod kernels;
pub mod logical_expr;
pub mod logical_plan;
pub mod physical_expr;
pub mod physical_plan;
pub mod planner;
pub mod projection;
pub mod scalar;
pub mod selection;
pub mod table;

verus! {

} // verus!
