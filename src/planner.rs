use vstd::prelude::*;

use crate::aggregate::AggrOperator;
use crate::array::copy_values;
use crate::datatype::{has_name, is_first_index, DataType, Field};
use crate::error::Error;
use crate::logical_expr::{lookup_field, AggregateFunc, AggregateFuncExpr, LogicalExpr};
use crate::logical_plan::LogicalPlan;
use crate::physical_expr::{AliasExpr, BinaryExpr, ColumnExpr, LiteralExpr, PhysicalExpr};
use crate::physical_plan::{Aggregation, NestedLoopJoin, PhysicalPlan, Projection, Scan, Selection};
use crate::table::same_table;

verus! {

/// Some column that `e` names is missing from `fields`.
pub open spec fn names_missing(e: LogicalExpr, fields: Seq<Field>) -> bool
    decreases e,
{
    match e {
        LogicalExpr::Column(n) => !has_name(fields, n@),
        LogicalExpr::BinaryExpr(b) => names_missing(*b.left, fields) || names_missing(*b.right, fields),
        LogicalExpr::Alias(a) => names_missing(*a.expr, fields),
        _ => false,
    }
}

/// `e` holds a scalar or an aggregate function, which no physical
/// expression computes.
pub open spec fn has_function(e: LogicalExpr) -> bool
    decreases e,
{
    match e {
        LogicalExpr::BinaryExpr(b) => has_function(*b.left) || has_function(*b.right),
        LogicalExpr::Alias(a) => has_function(*a.expr),
        LogicalExpr::ScalarFuncExpr(_) => true,
        LogicalExpr::AggregateFuncExpr(_) => true,
        _ => false,
    }
}

/// Some column that the plan names is missing from the input it is
/// resolved against: in an expression, an aggregate's argument or a join
/// key.
pub open spec fn plan_names_missing(lp: LogicalPlan) -> bool
    decreases lp,
{
    match lp {
        LogicalPlan::Scan(_) => false,
        LogicalPlan::Projection(x) => plan_names_missing(*x.input) || exists|j: int|
            0 <= j < x.exprs@.len() && names_missing(
                #[trigger] x.exprs@[j],
                x.input.schema_spec().fields@,
            ),
        LogicalPlan::Selection(x) => plan_names_missing(*x.input) || names_missing(
            x.expr,
            x.input.schema_spec().fields@,
        ),
        LogicalPlan::Aggregate(x) => plan_names_missing(*x.input) || (x.group_expr@.len() == 1
            && names_missing(x.group_expr@[0], x.input.schema_spec().fields@)) || exists|j: int|
            0 <= j < x.aggr_expr@.len() && (*(#[trigger] x.aggr_expr@[j]).expr matches LogicalExpr::Column(
                n,
            ) && !has_name(x.input.schema_spec().fields@, n@)),
        LogicalPlan::Join(x) => plan_names_missing(*x.left) || plan_names_missing(*x.right)
            || exists|k: int|
            0 <= k < x.on@.len() && (!has_name(x.left.schema_spec().fields@, (#[trigger] x.on@[k]).0@)
                || !has_name(x.right.schema_spec().fields@, x.on@[k].1@)),
    }
}

/// The plan holds what planning does not support: a function in an
/// expression, more than one group expression, or an aggregate whose
/// argument is not a column.
pub open spec fn plan_unsupported(lp: LogicalPlan) -> bool
    decreases lp,
{
    match lp {
        LogicalPlan::Scan(_) => false,
        LogicalPlan::Projection(x) => plan_unsupported(*x.input) || exists|j: int|
            0 <= j < x.exprs@.len() && has_function(#[trigger] x.exprs@[j]),
        LogicalPlan::Selection(x) => plan_unsupported(*x.input) || has_function(x.expr),
        LogicalPlan::Aggregate(x) => plan_unsupported(*x.input) || x.group_expr@.len() > 1 || (
        x.group_expr@.len() == 1 && has_function(x.group_expr@[0])) || exists|j: int|
            0 <= j < x.aggr_expr@.len() && !(*(#[trigger] x.aggr_expr@[j]).expr is Column),
        LogicalPlan::Join(x) => plan_unsupported(*x.left) || plan_unsupported(*x.right),
    }
}

/// A physical plan keeps the schema of the logical plan it translates.
pub proof fn lemma_translates_schema(lp: LogicalPlan, pp: PhysicalPlan)
    requires
        translates(lp, pp),
    ensures
        pp.schema_spec().fields@ == lp.schema_spec().fields@,
    decreases lp,
{
    match (lp, pp) {
        (LogicalPlan::Selection(x), PhysicalPlan::Selection(y)) => {
            lemma_translates_schema(*x.input, *y.input);
        },
        _ => {},
    }
}

/// `pe` is the physical form of `e` over `fields`: each column name is
/// resolved to the position of the first field of that name.
pub open spec fn plans_to(e: LogicalExpr, fields: Seq<Field>, pe: PhysicalExpr) -> bool
    decreases e,
{
    match (e, pe) {
        (LogicalExpr::Column(n), PhysicalExpr::Column(c)) => is_first_index(fields, n@, c.index as int),
        (LogicalExpr::Literal(s), PhysicalExpr::Literal(l)) => l.scalar == s,
        (LogicalExpr::BinaryExpr(b), PhysicalExpr::Binary(pb)) => pb.op == b.op && plans_to(
            *b.left,
            fields,
            *pb.left,
        ) && plans_to(*b.right, fields, *pb.right),
        (LogicalExpr::Alias(a), PhysicalExpr::Alias(pa)) => pa.name == a.name && plans_to(
            *a.expr,
            fields,
            *pa.expr,
        ),
        _ => false,
    }
}

/// `op` is the physical form of the aggregate `a` over `fields`: it reads
/// the argument's column and accumulates values of the argument's type.
pub open spec fn aggregate_plans_to(a: AggregateFuncExpr, fields: Seq<Field>, op: AggrOperator) -> bool {
    &&& op.func == a.func
    &&& *a.expr matches LogicalExpr::Column(n) && is_first_index(fields, n@, op.column.index as int)
    &&& op.data_type == if a.func is COUNT {
        DataType::UInt64
    } else {
        fields[op.column.index as int].data_type
    }
}

/// `pp` is the physical form of the logical plan `lp`: the same tree of
/// operators, each expression planned over its input's fields, and each
/// cached schema kept.
pub open spec fn translates(lp: LogicalPlan, pp: PhysicalPlan) -> bool
    decreases lp,
{
    match (lp, pp) {
        (LogicalPlan::Scan(s), PhysicalPlan::Scan(t)) => same_table(s.data_source, t.source) && match (
            s.projection,
            t.projection,
        ) {
            (Some(a), Some(b)) => a@ == b@,
            (None, None) => true,
            _ => false,
        },
        (LogicalPlan::Projection(x), PhysicalPlan::Projection(y)) => {
            &&& translates(*x.input, *y.input)
            &&& y.schema.fields@ == x.schema.fields@
            &&& y.exprs@.len() == x.exprs@.len()
            &&& forall|j: int|
                0 <= j < x.exprs@.len() ==> plans_to(
                    #[trigger] x.exprs@[j],
                    x.input.schema_spec().fields@,
                    y.exprs@[j],
                )
        },
        (LogicalPlan::Selection(x), PhysicalPlan::Selection(y)) => translates(*x.input, *y.input)
            && plans_to(x.expr, x.input.schema_spec().fields@, y.expr),
        (LogicalPlan::Aggregate(x), PhysicalPlan::Aggregation(y)) => {
            &&& translates(*x.input, *y.input)
            &&& y.schema.fields@ == x.schema.fields@
            &&& match y.group_expr {
                None => x.group_expr@.len() == 0,
                Some(g) => x.group_expr@.len() == 1 && plans_to(
                    x.group_expr@[0],
                    x.input.schema_spec().fields@,
                    g,
                ),
            }
            &&& y.aggr_expr@.len() == x.aggr_expr@.len()
            &&& forall|j: int|
                0 <= j < x.aggr_expr@.len() ==> aggregate_plans_to(
                    #[trigger] x.aggr_expr@[j],
                    x.input.schema_spec().fields@,
                    y.aggr_expr@[j],
                )
        },
        (LogicalPlan::Join(x), PhysicalPlan::NestedLoopJoin(y)) => {
            &&& translates(*x.left, *y.left)
            &&& translates(*x.right, *y.right)
            &&& y.schema.fields@ == x.schema.fields@
            &&& y.on@.len() == x.on@.len()
            &&& forall|k: int|
                0 <= k < x.on@.len() ==> is_first_index(
                    y.left.schema_spec().fields@,
                    (#[trigger] x.on@[k]).0@,
                    y.on@[k].0.index as int,
                ) && is_first_index(y.right.schema_spec().fields@, x.on@[k].1@, y.on@[k].1.index as int)
        },
        _ => false,
    }
}

/// Translates logical plans and expressions into physical ones.
pub struct QueryPlanner;

fn copy_projection(p: &Option<Vec<usize>>) -> (r: Option<Vec<usize>>)
    ensures
        match (r, *p) {
            (Some(a), Some(b)) => a@ == b@,
            (None, None) => true,
            _ => false,
        },
{
    match p {
        Some(v) => Some(copy_values(v)),
        None => None,
    }
}

impl QueryPlanner {
    /// The physical form of `expr` over the output of `input`. Fails with
    /// `NoSuchColumn` on a missing column, and with `LogicalPlanError` on a
    /// scalar or aggregate function.
    pub fn create_physical_expr(input: &LogicalPlan, expr: &LogicalExpr) -> (r: Result<
        PhysicalExpr,
        Error,
    >)
        ensures
            r is Ok == (!names_missing(*expr, input.schema_spec().fields@) && !has_function(*expr)),
            match r {
                Ok(pe) => plans_to(*expr, input.schema_spec().fields@, pe),
                Err(e) => e is NoSuchColumn && names_missing(*expr, input.schema_spec().fields@)
                    || e is LogicalPlanError && has_function(*expr),
            },
        decreases expr,
    {
        match expr {
            LogicalExpr::BinaryExpr(b) => {
                let l = match QueryPlanner::create_physical_expr(input, &b.left) {
                    Ok(e) => e,
                    Err(e) => {
                        return Err(e);
                    },
                };
                let r = match QueryPlanner::create_physical_expr(input, &b.right) {
                    Ok(e) => e,
                    Err(e) => {
                        return Err(e);
                    },
                };
                Ok(BinaryExpr::new(l, b.op, r))
            },
            LogicalExpr::Literal(s) => Ok(LiteralExpr::new(s.clone())),
            LogicalExpr::Alias(a) => match QueryPlanner::create_physical_expr(input, &a.expr) {
                Ok(e) => Ok(AliasExpr::new(a.name.clone(), e)),
                Err(e) => Err(e),
            },
            LogicalExpr::Column(n) => match lookup_field(&input.schema().fields, n.as_str()) {
                Some(i) => Ok(ColumnExpr::new(i)),
                None => {
                    let mut m = "Column ".to_string();
                    m.append(n.as_str());
                    m.append(" does not exist");
                    Err(Error::NoSuchColumn(m))
                },
            },
            LogicalExpr::ScalarFuncExpr(_) => Err(
                Error::LogicalPlanError("scalar functions cannot be planned".to_string()),
            ),
            LogicalExpr::AggregateFuncExpr(_) => Err(
                Error::LogicalPlanError("aggregate functions are planned by an aggregation".to_string()),
            ),
        }
    }

    /// The physical forms of `exprs` over the output of `input`.
    fn create_physical_exprs(input: &LogicalPlan, exprs: &Vec<LogicalExpr>) -> (r: Result<
        Vec<PhysicalExpr>,
        Error,
    >)
        ensures
            match r {
                Ok(pes) => pes@.len() == exprs@.len() && forall|j: int|
                    0 <= j < exprs@.len() ==> plans_to(
                        #[trigger] exprs@[j],
                        input.schema_spec().fields@,
                        pes@[j],
                    ) && !names_missing(exprs@[j], input.schema_spec().fields@) && !has_function(
                        exprs@[j],
                    ),
                Err(e) => e is NoSuchColumn && (exists|j: int|
                    0 <= j < exprs@.len() && names_missing(
                        #[trigger] exprs@[j],
                        input.schema_spec().fields@,
                    )) || e is LogicalPlanError && (exists|j: int|
                    0 <= j < exprs@.len() && has_function(#[trigger] exprs@[j])),
            },
    {
        let mut out: Vec<PhysicalExpr> = Vec::new();
        let mut j: usize = 0;
        while j < exprs.len()
            invariant
                j <= exprs@.len(),
                out@.len() == j,
                forall|k: int|
                    0 <= k < j ==> plans_to(
                        #[trigger] exprs@[k],
                        input.schema_spec().fields@,
                        out@[k],
                    ) && !names_missing(exprs@[k], input.schema_spec().fields@) && !has_function(
                        exprs@[k],
                    ),
            decreases exprs@.len() - j,
        {
            match QueryPlanner::create_physical_expr(input, &exprs[j]) {
                Ok(e) => out.push(e),
                Err(e) => {
                    return Err(e);
                },
            }
            j = j + 1;
        }
        Ok(out)
    }

    /// The operator for one aggregate: its argument must be a column.
    fn create_aggr_operator(input: &LogicalPlan, a: &AggregateFuncExpr) -> (r: Result<
        AggrOperator,
        Error,
    >)
        ensures
            match r {
                Ok(op) => aggregate_plans_to(*a, input.schema_spec().fields@, op),
                Err(e) => e is NoSuchColumn && (*a.expr matches LogicalExpr::Column(n) && !has_name(
                    input.schema_spec().fields@,
                    n@,
                )) || e is LogicalPlanError && !(*a.expr is Column),
            },
    {
        let fields = &input.schema().fields;
        match &*a.expr {
            LogicalExpr::Column(n) => match lookup_field(fields, n.as_str()) {
                Some(i) => {
                    let t = if a.func == AggregateFunc::COUNT {
                        DataType::UInt64
                    } else {
                        fields[i].data_type
                    };
                    Ok(AggrOperator { func: a.func, data_type: t, column: ColumnExpr { index: i } })
                },
                None => {
                    let mut m = "Column ".to_string();
                    m.append(n.as_str());
                    m.append(" does not exist");
                    Err(Error::NoSuchColumn(m))
                },
            },
            _ => Err(Error::LogicalPlanError("an aggregate must take a column".to_string())),
        }
    }

    /// The physical plan of a logical plan. Projection, aggregation and
    /// join keep their cached schema.
    pub fn create_physical_plan(plan: &LogicalPlan) -> (r: Result<PhysicalPlan, Error>)
        requires
            plan.wf(),
        ensures
            r matches Ok(p) ==> p.wf() && translates(*plan, p),
            r is Ok == (!plan_names_missing(*plan) && !plan_unsupported(*plan)),
            r matches Err(e) ==> e is NoSuchColumn && plan_names_missing(*plan) || e is LogicalPlanError
                && plan_unsupported(*plan),
            r matches Ok(p) ==> match *plan {
                LogicalPlan::Projection(_) => p.schema_spec().fields@
                    == plan.schema_spec().fields@,
                LogicalPlan::Aggregate(_) => p.schema_spec().fields@
                    == plan.schema_spec().fields@,
                LogicalPlan::Join(_) => p.schema_spec().fields@ == plan.schema_spec().fields@,
                _ => true,
            },
        decreases plan,
    {
        match plan {
            LogicalPlan::Scan(s) => Ok(Scan::new(s.data_source.clone(), copy_projection(&s.projection))),
            LogicalPlan::Projection(p) => {
                let exprs = match QueryPlanner::create_physical_exprs(&p.input, &p.exprs) {
                    Ok(e) => e,
                    Err(e) => {
                        return Err(e);
                    },
                };
                let input = match QueryPlanner::create_physical_plan(&p.input) {
                    Ok(i) => i,
                    Err(e) => {
                        return Err(e);
                    },
                };
                Ok(Projection::new(input, p.schema.clone(), exprs))
            },
            LogicalPlan::Selection(s) => {
                let expr = match QueryPlanner::create_physical_expr(&s.input, &s.expr) {
                    Ok(e) => e,
                    Err(e) => {
                        return Err(e);
                    },
                };
                let input = match QueryPlanner::create_physical_plan(&s.input) {
                    Ok(i) => i,
                    Err(e) => {
                        return Err(e);
                    },
                };
                Ok(Selection::new(input, expr))
            },
            LogicalPlan::Aggregate(a) => {
                if a.group_expr.len() > 1 {
                    return Err(Error::LogicalPlanError("at most one group expression is supported".to_string()));
                }
                let group = if a.group_expr.len() == 1 {
                    match QueryPlanner::create_physical_expr(&a.input, &a.group_expr[0]) {
                        Ok(e) => Some(e),
                        Err(e) => {
                            return Err(e);
                        },
                    }
                } else {
                    None
                };
                let mut ops: Vec<AggrOperator> = Vec::new();
                let mut j: usize = 0;
                while j < a.aggr_expr.len()
                    invariant
                        j <= a.aggr_expr@.len(),
                        ops@.len() == j,
                        forall|m: int|
                            0 <= m < j ==> aggregate_plans_to(
                                #[trigger] a.aggr_expr@[m],
                                a.input.schema_spec().fields@,
                                ops@[m],
                            ),
                        *plan is Aggregate && (*plan)->Aggregate_0 == *a,
                        forall|m: int|
                            0 <= m < j ==> (*(#[trigger] a.aggr_expr@[m]).expr matches LogicalExpr::Column(
                                n,
                            ) && has_name(a.input.schema_spec().fields@, n@)),
                    decreases a.aggr_expr@.len() - j,
                {
                    match QueryPlanner::create_aggr_operator(&a.input, &a.aggr_expr[j]) {
                        Ok(op) => {
                            proof {
                                let i = op.column.index as int;
                                assert(a.input.schema_spec().fields@[i].name@ == (
                                *a.aggr_expr@[j as int].expr)->Column_0@);
                            }
                            ops.push(op);
                        },
                        Err(e) => {
                            proof {
                                if e is NoSuchColumn {
                                    assert(plan_names_missing(*plan));
                                } else {
                                    assert(plan_unsupported(*plan));
                                }
                            }
                            return Err(e);
                        },
                    }
                    j = j + 1;
                }
                let input = match QueryPlanner::create_physical_plan(&a.input) {
                    Ok(i) => i,
                    Err(e) => {
                        return Err(e);
                    },
                };
                Ok(Aggregation::new(input, group, ops, a.schema.clone()))
            },
            LogicalPlan::Join(j) => {
                let left = match QueryPlanner::create_physical_plan(&j.left) {
                    Ok(p) => p,
                    Err(e) => {
                        return Err(e);
                    },
                };
                let right = match QueryPlanner::create_physical_plan(&j.right) {
                    Ok(p) => p,
                    Err(e) => {
                        return Err(e);
                    },
                };
                proof {
                    lemma_translates_schema(*j.left, left);
                    lemma_translates_schema(*j.right, right);
                }
                let mut on: Vec<(ColumnExpr, ColumnExpr)> = Vec::new();
                let mut k: usize = 0;
                while k < j.on.len()
                    invariant
                        k <= j.on@.len(),
                        on@.len() == k,
                        forall|m: int|
                            0 <= m < k ==> is_first_index(
                                left.schema_spec().fields@,
                                (#[trigger] j.on@[m]).0@,
                                on@[m].0.index as int,
                            ) && is_first_index(
                                right.schema_spec().fields@,
                                j.on@[m].1@,
                                on@[m].1.index as int,
                            ),
                        *plan is Join && (*plan)->Join_0 == *j,
                        left.schema_spec().fields@ == j.left.schema_spec().fields@,
                        right.schema_spec().fields@ == j.right.schema_spec().fields@,
                        forall|m: int|
                            0 <= m < k ==> has_name(
                                j.left.schema_spec().fields@,
                                (#[trigger] j.on@[m]).0@,
                            ) && has_name(j.right.schema_spec().fields@, j.on@[m].1@),
                    decreases j.on@.len() - k,
                {
                    let (ln, rn) = &j.on[k];
                    let li = match lookup_field(&left.schema().fields, ln.as_str()) {
                        Some(i) => i,
                        None => {
                            assert(j.on@[k as int].0@ == ln@);
                            assert(plan_names_missing(*plan));
                            let mut m = "Column ".to_string();
                            m.append(ln.as_str());
                            m.append(" does not exist");
                            return Err(Error::NoSuchColumn(m));
                        },
                    };
                    let ri = match lookup_field(&right.schema().fields, rn.as_str()) {
                        Some(i) => i,
                        None => {
                            assert(j.on@[k as int].1@ == rn@);
                            assert(plan_names_missing(*plan));
                            let mut m = "Column ".to_string();
                            m.append(rn.as_str());
                            m.append(" does not exist");
                            return Err(Error::NoSuchColumn(m));
                        },
                    };
                    proof {
                        assert(left.schema_spec().fields@[li as int].name@ == ln@);
                        assert(right.schema_spec().fields@[ri as int].name@ == rn@);
                        assert(j.on@[k as int].0@ == ln@ && j.on@[k as int].1@ == rn@);
                    }
                    on.push((ColumnExpr { index: li }, ColumnExpr { index: ri }));
                    k = k + 1;
                }
                Ok(NestedLoopJoin::new(left, right, on, j.schema.clone()))
            },
        }
    }
}

} // verus!
