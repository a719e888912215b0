use vstd::prelude::*;

use crate::datatype::{Field, Schema};
use crate::error::Error;
use crate::logical_expr::{field_spec, AggregateFuncExpr, LogicalExpr};
use crate::logical_plan::{Aggregate, Join, JoinType, LogicalPlan, Projection, Selection};

verus! {

/// `f` is the field described by `s`.
pub open spec fn field_is(f: Field, s: Option<(Seq<char>, crate::datatype::DataType, bool)>) -> bool {
    match s {
        Some((n, t, null)) => f.name@ == n && f.data_type == t && f.nullable == null,
        None => false,
    }
}

/// `fs` are the fields of `exprs` over `input`, one for one.
pub open spec fn fields_of(exprs: Seq<LogicalExpr>, input: Seq<Field>, fs: Seq<Field>) -> bool {
    &&& fs.len() == exprs.len()
    &&& forall|j: int| 0 <= j < exprs.len() ==> field_is(#[trigger] fs[j], field_spec(exprs[j], input))
}

/// Every expression has a field over `input`.
pub open spec fn all_resolve(exprs: Seq<LogicalExpr>, input: Seq<Field>) -> bool {
    forall|j: int| 0 <= j < exprs.len() ==> (#[trigger] field_spec(exprs[j], input)) is Some
}

/// The fields of the expressions over `input`.
pub fn expr_fields(exprs: &Vec<LogicalExpr>, input: &Vec<Field>) -> (r: Result<Vec<Field>, Error>)
    ensures
        match r {
            Ok(fs) => fields_of(exprs@, input@, fs@) && all_resolve(exprs@, input@),
            Err(e) => e == Error::NoSuchField && !all_resolve(exprs@, input@),
        },
{
    let mut fs: Vec<Field> = Vec::new();
    let mut j: usize = 0;
    while j < exprs.len()
        invariant
            j <= exprs@.len(),
            fs@.len() == j,
            forall|k: int| 0 <= k < j ==> field_is(#[trigger] fs@[k], field_spec(exprs@[k], input@)),
            forall|k: int| 0 <= k < j ==> (#[trigger] field_spec(exprs@[k], input@)) is Some,
        decreases exprs@.len() - j,
    {
        match exprs[j].to_field_in(input) {
            Ok(f) => fs.push(f),
            Err(e) => {
                assert(field_spec(exprs@[j as int], input@) is None);
                return Err(e);
            },
        }
        j = j + 1;
    }
    Ok(fs)
}

/// The aggregates as logical expressions.
pub open spec fn aggr_exprs(aggs: Seq<AggregateFuncExpr>) -> Seq<LogicalExpr> {
    Seq::new(aggs.len(), |j: int| LogicalExpr::AggregateFuncExpr(aggs[j]))
}

/// The fields of the aggregates over `input`.
pub fn aggr_fields(aggs: &Vec<AggregateFuncExpr>, input: &Vec<Field>) -> (r: Result<Vec<Field>, Error>)
    ensures
        match r {
            Ok(fs) => fields_of(aggr_exprs(aggs@), input@, fs@) && all_resolve(aggr_exprs(aggs@), input@),
            Err(e) => e == Error::NoSuchField && !all_resolve(aggr_exprs(aggs@), input@),
        },
{
    let ghost es = aggr_exprs(aggs@);
    let mut fs: Vec<Field> = Vec::new();
    let mut j: usize = 0;
    while j < aggs.len()
        invariant
            es == aggr_exprs(aggs@),
            j <= aggs@.len(),
            fs@.len() == j,
            forall|k: int| 0 <= k < j ==> field_is(#[trigger] fs@[k], field_spec(es[k], input@)),
            forall|k: int| 0 <= k < j ==> (#[trigger] field_spec(es[k], input@)) is Some,
        decreases aggs@.len() - j,
    {
        match aggs[j].to_field_in(input) {
            Ok(f) => fs.push(f),
            Err(e) => {
                assert(field_spec(es[j as int], input@) is None);
                return Err(e);
            },
        }
        j = j + 1;
    }
    Ok(fs)
}

/// A builder of logical plans: each operation wraps the plan so far in one
/// more operator.
#[derive(Debug)]
pub struct DataFrame {
    pub plan: LogicalPlan,
}

impl DataFrame {
    pub fn new(plan: LogicalPlan) -> (r: DataFrame)
        ensures
            r.plan == plan,
    {
        DataFrame { plan }
    }

    /// Evaluates `exprs` over the plan; the schema holds one field per
    /// expression. Fails when an expression names a missing column.
    pub fn project(self, exprs: Vec<LogicalExpr>) -> (r: Result<DataFrame, Error>)
        ensures
            match r {
                Ok(df) => match df.plan {
                    LogicalPlan::Projection(p) => *p.input == self.plan && p.exprs@ == exprs@
                        && p.schema.fields@.len() == exprs@.len() && fields_of(
                        exprs@,
                        self.plan.schema_spec().fields@,
                        p.schema.fields@,
                    ),
                    _ => false,
                },
                Err(e) => e == Error::NoSuchField && !all_resolve(
                    exprs@,
                    self.plan.schema_spec().fields@,
                ),
            },
    {
        let fields = match expr_fields(&exprs, &self.plan.schema().fields) {
            Ok(f) => f,
            Err(e) => {
                return Err(e);
            },
        };
        Ok(
            DataFrame {
                plan: LogicalPlan::Projection(
                    Projection { input: Box::new(self.plan), exprs, schema: Schema { fields } },
                ),
            },
        )
    }

    /// Keeps the rows where `expr` holds.
    pub fn select(self, expr: LogicalExpr) -> (r: Result<DataFrame, Error>)
        ensures
            match r {
                Ok(df) => df.plan == LogicalPlan::Selection(
                    Selection { input: Box::new(self.plan), expr },
                ),
                Err(_) => false,
            },
    {
        Ok(DataFrame { plan: LogicalPlan::Selection(Selection { input: Box::new(self.plan), expr }) })
    }

    /// Aggregates by the group expressions; the schema holds the group
    /// fields, then one field per aggregate.
    pub fn aggregate(self, group_expr: Vec<LogicalExpr>, aggr_expr: Vec<AggregateFuncExpr>) -> (r:
        Result<DataFrame, Error>)
        ensures
            match r {
                Ok(df) => match df.plan {
                    LogicalPlan::Aggregate(a) => *a.input == self.plan && a.group_expr@
                        == group_expr@ && a.aggr_expr@ == aggr_expr@ && a.schema.fields@.len()
                        == group_expr@.len() + aggr_expr@.len() && fields_of(
                        group_expr@ + aggr_exprs(aggr_expr@),
                        self.plan.schema_spec().fields@,
                        a.schema.fields@,
                    ),
                    _ => false,
                },
                Err(e) => e == Error::NoSuchField && !(all_resolve(
                    group_expr@,
                    self.plan.schema_spec().fields@,
                ) && all_resolve(aggr_exprs(aggr_expr@), self.plan.schema_spec().fields@)),
            },
    {
        let mut fields = match expr_fields(&group_expr, &self.plan.schema().fields) {
            Ok(f) => f,
            Err(e) => {
                return Err(e);
            },
        };
        let mut more = match aggr_fields(&aggr_expr, &self.plan.schema().fields) {
            Ok(f) => f,
            Err(e) => {
                return Err(e);
            },
        };
        let ghost gf = fields@;
        let ghost af = more@;
        fields.append(&mut more);
        let ghost all = group_expr@ + aggr_exprs(aggr_expr@);
        assert forall|j: int| 0 <= j < all.len() implies field_is(
            #[trigger] fields@[j],
            field_spec(all[j], self.plan.schema_spec().fields@),
        ) by {
            if j >= group_expr@.len() {
                assert(fields@[j] == af[j - group_expr@.len()]);
            } else {
                assert(fields@[j] == gf[j]);
            }
        }
        Ok(
            DataFrame {
                plan: LogicalPlan::Aggregate(
                    Aggregate {
                        input: Box::new(self.plan),
                        group_expr,
                        aggr_expr,
                        schema: Schema { fields },
                    },
                ),
            },
        )
    }

    /// Joins with `right` on pairs of key names; the schema is this plan's
    /// followed by `right`'s. Fails unless the two key lists have one
    /// length.
    pub fn join(self, right: LogicalPlan, join_type: JoinType, on: (Vec<String>, Vec<String>)) -> (r:
        Result<DataFrame, Error>)
        ensures
            match r {
                Ok(df) => on.0@.len() == on.1@.len() && match df.plan {
                    LogicalPlan::Join(j) => *j.left == self.plan && *j.right == right
                        && j.join_type == join_type && j.on@.len() == on.0@.len() && (forall|k: int|
                        0 <= k < j.on@.len() ==> (#[trigger] j.on@[k]) == (on.0@[k], on.1@[k]))
                        && j.schema.fields@ == self.plan.schema_spec().fields@
                        + right.schema_spec().fields@ && j.schema.fields@.len()
                        == self.plan.schema_spec().fields@.len() + right.schema_spec().fields@.len(),
                    _ => false,
                },
                Err(e) => e is LogicalPlanError && on.0@.len() != on.1@.len(),
            },
    {
        let (left_keys, right_keys) = on;
        if left_keys.len() != right_keys.len() {
            return Err(Error::LogicalPlanError("The number of columns to be joined must be the same".to_string()));
        }
        let mut pairs: Vec<(String, String)> = Vec::new();
        let mut lk = left_keys;
        let mut rk = right_keys;
        let ghost l0 = lk@;
        let ghost r0 = rk@;
        // Move the names out from the back, then restore their order.
        let mut rev: Vec<(String, String)> = Vec::new();
        while lk.len() > 0
            invariant
                lk@.len() == rk@.len(),
                lk@.len() + rev@.len() == l0.len(),
                l0.len() == r0.len(),
                lk@ == l0.subrange(0, lk@.len() as int),
                rk@ == r0.subrange(0, rk@.len() as int),
                forall|k: int|
                    0 <= k < rev@.len() ==> (#[trigger] rev@[k]) == (
                        l0[l0.len() - 1 - k],
                        r0[r0.len() - 1 - k],
                    ),
            decreases lk@.len(),
        {
            let a = lk.pop().unwrap();
            let b = rk.pop().unwrap();
            rev.push((a, b));
        }
        while rev.len() > 0
            invariant
                l0.len() == r0.len(),
                pairs@.len() + rev@.len() == l0.len(),
                forall|k: int|
                    0 <= k < rev@.len() ==> (#[trigger] rev@[k]) == (
                        l0[l0.len() - 1 - k],
                        r0[r0.len() - 1 - k],
                    ),
                forall|k: int| 0 <= k < pairs@.len() ==> (#[trigger] pairs@[k]) == (l0[k], r0[k]),
            decreases rev@.len(),
        {
            let p = rev.pop().unwrap();
            pairs.push(p);
        }
        let schema = self.plan.schema().join(right.schema());
        Ok(
            DataFrame {
                plan: LogicalPlan::Join(
                    Join {
                        left: Box::new(self.plan),
                        on: pairs,
                        right: Box::new(right),
                        join_type,
                        schema,
                    },
                ),
            },
        )
    }

    pub fn schema(&self) -> (r: &Schema)
        ensures
            *r == self.plan.schema_spec(),
    {
        self.plan.schema()
    }

    pub fn plan(&self) -> (r: &LogicalPlan)
        ensures
            *r == self.plan,
    {
        &self.plan
    }
}

} // verus!
