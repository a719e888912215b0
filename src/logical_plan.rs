use vstd::prelude::*;

use crate::datatype::Schema;
use crate::logical_expr::{AggregateFuncExpr, LogicalExpr};
use crate::table::Table;

verus! {

/// Reads a data source, restricted to the columns at `projection` when one
/// is given.
#[derive(Debug)]
pub struct Scan {
    pub data_source: Table,
    pub projection: Option<Vec<usize>>,
}

/// Evaluates a list of expressions over its input.
#[derive(Debug)]
pub struct Projection {
    pub input: Box<LogicalPlan>,
    pub exprs: Vec<LogicalExpr>,
    pub schema: Schema,
}

/// Keeps the rows of its input where a predicate holds.
#[derive(Debug)]
pub struct Selection {
    pub input: Box<LogicalPlan>,
    pub expr: LogicalExpr,
}

/// Aggregates its input, grouped by the group expressions.
#[derive(Debug)]
pub struct Aggregate {
    pub input: Box<LogicalPlan>,
    pub group_expr: Vec<LogicalExpr>,
    pub aggr_expr: Vec<AggregateFuncExpr>,
    pub schema: Schema,
}

/// Joins two plans on pairs of column names.
#[derive(Debug)]
pub struct Join {
    pub left: Box<LogicalPlan>,
    pub on: Vec<(String, String)>,
    pub right: Box<LogicalPlan>,
    pub join_type: JoinType,
    pub schema: Schema,
}

#[derive(Debug, Clone, Copy, PartialEq, Eq, Structural)]
pub enum JoinType {
    Inner,
    Left,
    Right,
    CrossJoin,
}

/// A tree of relational operators; each node knows its output schema.
#[derive(Debug)]
pub enum LogicalPlan {
    Scan(Scan),
    Projection(Projection),
    Selection(Selection),
    Aggregate(Aggregate),
    Join(Join),
}

impl LogicalPlan {
    /// The output schema: the source's for a scan, the input's for a
    /// selection, the cached one otherwise.
    pub open spec fn schema_spec(&self) -> Schema
        decreases self,
    {
        match self {
            LogicalPlan::Scan(s) => s.data_source.schema,
            LogicalPlan::Projection(p) => p.schema,
            LogicalPlan::Selection(s) => s.input.schema_spec(),
            LogicalPlan::Aggregate(a) => a.schema,
            LogicalPlan::Join(j) => j.schema,
        }
    }

    /// The tables under the plan are well formed.
    pub open spec fn wf(&self) -> bool
        decreases self,
    {
        match self {
            LogicalPlan::Scan(s) => s.data_source.wf(),
            LogicalPlan::Projection(p) => p.input.wf(),
            LogicalPlan::Selection(s) => s.input.wf(),
            LogicalPlan::Aggregate(a) => a.input.wf(),
            LogicalPlan::Join(j) => j.left.wf() && j.right.wf(),
        }
    }

    pub fn schema(&self) -> (r: &Schema)
        ensures
            *r == self.schema_spec(),
        decreases self,
    {
        match self {
            LogicalPlan::Scan(s) => &s.data_source.schema,
            LogicalPlan::Projection(p) => &p.schema,
            LogicalPlan::Selection(s) => s.input.schema(),
            LogicalPlan::Aggregate(a) => &a.schema,
            LogicalPlan::Join(j) => &j.schema,
        }
    }

    /// The inputs of the plan's root.
    pub fn children(&self) -> (r: Vec<&LogicalPlan>)
        ensures
            r@ == match self {
                LogicalPlan::Scan(_) => Seq::<&LogicalPlan>::empty(),
                LogicalPlan::Projection(p) => seq![&*p.input],
                LogicalPlan::Selection(s) => seq![&*s.input],
                LogicalPlan::Aggregate(a) => seq![&*a.input],
                LogicalPlan::Join(j) => seq![&*j.left, &*j.right],
            },
    {
        let mut out: Vec<&LogicalPlan> = Vec::new();
        match self {
            LogicalPlan::Scan(_) => {},
            LogicalPlan::Projection(p) => out.push(&*p.input),
            LogicalPlan::Selection(s) => out.push(&*s.input),
            LogicalPlan::Aggregate(a) => out.push(&*a.input),
            LogicalPlan::Join(j) => {
                out.push(&*j.left);
                out.push(&*j.right);
            },
        }
        proof {
            match self {
                LogicalPlan::Scan(_) => assert(out@ =~= Seq::<&LogicalPlan>::empty()),
                LogicalPlan::Projection(p) => assert(out@ =~= seq![&*p.input]),
                LogicalPlan::Selection(s) => assert(out@ =~= seq![&*s.input]),
                LogicalPlan::Aggregate(a) => assert(out@ =~= seq![&*a.input]),
                LogicalPlan::Join(j) => assert(out@ =~= seq![&*j.left, &*j.right]),
            }
        }
        out
    }
}

} // verus!
