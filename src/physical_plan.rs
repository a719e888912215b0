use vstd::prelude::*;

use crate::aggregate::{
    aggregate_all, aggregate_grouped, aggregated, all_rows, all_succeed, fits_outputs,
    group_firsts, group_members, groupable, grouped, AggrOperator,
};
use crate::array::ColumnVector;
use crate::batch::{batches_fit, concat_batches, concat_cells, total_rows, types_of, RecordBatch};
use crate::datatype::{DataType, Field, Schema};
use crate::error::Error;
use crate::join::{join_batches, join_fits, joined, keys_valid};
use crate::physical_expr::{error_is, eval_spec, ColumnExpr, Failure, PhysicalExpr};
use crate::projection::{project_batches, projected_by, projection_fits};
use crate::scalar::Scalar;
use crate::selection::{select_batch, selected_by};
use crate::table::{indices_below, scanned, Table};

verus! {

/// Reads the batches of a table, restricted to the columns at `projection`
/// when one is given.
#[derive(Debug)]
pub struct Scan {
    pub source: Table,
    pub projection: Option<Vec<usize>>,
}

/// Evaluates expressions over every input batch.
#[derive(Debug)]
pub struct Projection {
    pub input: Box<PhysicalPlan>,
    pub schema: Schema,
    pub exprs: Vec<PhysicalExpr>,
}

/// Keeps the input rows where a predicate holds.
#[derive(Debug)]
pub struct Selection {
    pub input: Box<PhysicalPlan>,
    pub expr: PhysicalExpr,
}

/// Aggregates the input rows, per group of a key expression when one is
/// given.
#[derive(Debug)]
pub struct Aggregation {
    pub input: Box<PhysicalPlan>,
    pub group_expr: Option<PhysicalExpr>,
    pub aggr_expr: Vec<AggrOperator>,
    pub schema: Schema,
}

/// Joins two inputs on pairs of key columns.
#[derive(Debug)]
pub struct NestedLoopJoin {
    pub left: Box<PhysicalPlan>,
    pub right: Box<PhysicalPlan>,
    pub on: Vec<(ColumnExpr, ColumnExpr)>,
    pub schema: Schema,
}

/// An executable plan.
#[derive(Debug)]
pub enum PhysicalPlan {
    Scan(Scan),
    Projection(Projection),
    Selection(Selection),
    Aggregation(Aggregation),
    NestedLoopJoin(NestedLoopJoin),
}

impl Scan {
    pub fn new(source: Table, projection: Option<Vec<usize>>) -> (r: PhysicalPlan)
        ensures
            r == PhysicalPlan::Scan(Scan { source, projection }),
    {
        PhysicalPlan::Scan(Scan { source, projection })
    }
}

impl Projection {
    pub fn new(input: PhysicalPlan, schema: Schema, exprs: Vec<PhysicalExpr>) -> (r: PhysicalPlan)
        ensures
            r == PhysicalPlan::Projection(Projection { input: Box::new(input), schema, exprs }),
    {
        PhysicalPlan::Projection(Projection { input: Box::new(input), schema, exprs })
    }
}

impl Selection {
    pub fn new(input: PhysicalPlan, expr: PhysicalExpr) -> (r: PhysicalPlan)
        ensures
            r == PhysicalPlan::Selection(Selection { input: Box::new(input), expr }),
    {
        PhysicalPlan::Selection(Selection { input: Box::new(input), expr })
    }
}

impl Aggregation {
    pub fn new(
        input: PhysicalPlan,
        group_expr: Option<PhysicalExpr>,
        aggr_expr: Vec<AggrOperator>,
        schema: Schema,
    ) -> (r: PhysicalPlan)
        ensures
            r == PhysicalPlan::Aggregation(
                Aggregation { input: Box::new(input), group_expr, aggr_expr, schema },
            ),
    {
        PhysicalPlan::Aggregation(Aggregation { input: Box::new(input), group_expr, aggr_expr, schema })
    }
}

impl NestedLoopJoin {
    pub fn new(
        left: PhysicalPlan,
        right: PhysicalPlan,
        on: Vec<(ColumnExpr, ColumnExpr)>,
        schema: Schema,
    ) -> (r: PhysicalPlan)
        ensures
            r == PhysicalPlan::NestedLoopJoin(
                NestedLoopJoin { left: Box::new(left), right: Box::new(right), on, schema },
            ),
    {
        PhysicalPlan::NestedLoopJoin(
            NestedLoopJoin { left: Box::new(left), right: Box::new(right), on, schema },
        )
    }
}

/// The fields that batches are joined under: those of the first batch, or
/// `fallback` when there is none.
pub open spec fn concat_fields(bs: Seq<RecordBatch>, fallback: Seq<Field>) -> Seq<Field> {
    if bs.len() > 0 {
        bs[0].schema.fields@
    } else {
        fallback
    }
}

/// The batches cannot be joined under `fields`.
pub open spec fn concat_fails(bs: Seq<RecordBatch>, fields: Seq<Field>) -> bool {
    !(batches_fit(bs, types_of(fields)) && total_rows(bs) <= usize::MAX)
}

/// `b` is the batches `bs` joined into one under `fields`.
pub open spec fn concat_of(bs: Seq<RecordBatch>, fields: Seq<Field>, b: RecordBatch) -> bool {
    &&& b.wf()
    &&& b.schema.fields@ == fields
    &&& b.num_rows == total_rows(bs)
    &&& forall|j: int| 0 <= j < b.columns@.len() ==> (#[trigger] b.columns@[j]).cells() == concat_cells(bs, j)
}

/// `out` is a projection of the batches `ins`: with no fields in `schema`
/// the batches themselves, else each batch with the expressions evaluated.
pub open spec fn projected_all(ins: Seq<RecordBatch>, schema: Schema, exprs: Seq<PhysicalExpr>, out: Seq<
    RecordBatch,
>) -> bool {
    &&& out.len() == ins.len()
    &&& forall|k: int|
        0 <= k < ins.len() ==> (#[trigger] out[k]).wf() && if schema.fields@.len() == 0 {
            out[k].num_rows == ins[k].num_rows && out[k].schema.fields@ == ins[k].schema.fields@
                && out[k].columns@.len() == ins[k].columns@.len() && forall|j: int|
                0 <= j < ins[k].columns@.len() ==> out[k].columns@[j].cells()
                    == ins[k].columns@[j].cells()
        } else {
            out[k].schema.fields@ == schema.fields@ && projected_by(ins[k], exprs, out[k])
        }
}

/// The key indices of a join.
pub open spec fn key_pairs(on: Seq<(ColumnExpr, ColumnExpr)>) -> Seq<(usize, usize)> {
    Seq::new(on.len(), |p: int| (on[p].0.index, on[p].1.index))
}

/// `out` is what running `p` returns: each operator applied to what its
/// inputs return.
pub open spec fn produces(p: PhysicalPlan, out: Seq<RecordBatch>) -> bool
    decreases p,
{
    match p {
        PhysicalPlan::Scan(s) => scanned(s.source, s.projection, out),
        PhysicalPlan::Projection(x) => exists|ins: Seq<RecordBatch>|
            #[trigger] projected_all(ins, x.schema, x.exprs@, out) && produces(*x.input, ins),
        PhysicalPlan::Selection(x) => out.len() == 1 && exists|ins: Seq<RecordBatch>, b: RecordBatch|
            #[trigger] concat_of(ins, concat_fields(ins, x.input.schema_spec().fields@), b)
                && produces(*x.input, ins) && selected_by(b, x.expr, out[0]),
        PhysicalPlan::Aggregation(x) => out.len() == 1 && out[0].schema.fields@ == x.schema.fields@
            && exists|ins: Seq<RecordBatch>, b: RecordBatch|
            #[trigger] concat_of(ins, concat_fields(ins, x.input.schema_spec().fields@), b)
                && produces(*x.input, ins) && match x.group_expr {
                None => aggregated(b, x.aggr_expr@, out[0]),
                Some(g) => exists|keys: ColumnVector|
                    #[trigger] grouped(keys, b, x.aggr_expr@, out[0]) && eval_spec(g, b)
                        == Ok::<(DataType, Seq<Scalar>), Failure>((keys.data_type_spec(), keys.cells())),
            },
        PhysicalPlan::NestedLoopJoin(x) => out.len() == 1 && out[0].schema.fields@ == x.schema.fields@
            && exists|
            ls: Seq<RecordBatch>,
            rs: Seq<RecordBatch>,
            lb: RecordBatch,
            rb: RecordBatch,
        |
            #![trigger concat_of(ls, concat_fields(ls, x.left.schema_spec().fields@), lb), concat_of(rs, concat_fields(rs, x.right.schema_spec().fields@), rb)]
            concat_of(ls, concat_fields(ls, x.left.schema_spec().fields@), lb) && concat_of(
                rs,
                concat_fields(rs, x.right.schema_spec().fields@),
                rb,
            ) && produces(*x.left, ls) && produces(*x.right, rs) && joined(
                lb,
                rb,
                key_pairs(x.on@),
                out[0],
            ),
    }
}

/// Some batch of `ins` cannot be projected to `fields`.
pub open spec fn projection_breaks(ins: Seq<RecordBatch>, fields: Seq<Field>, exprs: Seq<PhysicalExpr>) -> bool {
    fields.len() != 0 && exists|k: int|
        0 <= k < ins.len() && !projection_fits(#[trigger] ins[k], fields, exprs)
}

/// A selection of `b` by `expr` fails with `e`.
pub open spec fn select_fails(b: RecordBatch, expr: PhysicalExpr, e: Error) -> bool {
    match eval_spec(expr, b) {
        Err(f) => error_is(e, f),
        Ok((t, _)) => t != DataType::Boolean && e is IntervalError,
    }
}

/// `keys` is a column of type `t` holding `cells`.
pub open spec fn key_column(keys: ColumnVector, t: DataType, cells: Seq<Scalar>) -> bool {
    keys.data_type_spec() == t && keys.cells() == cells
}

/// An aggregation of `b` fails with `e`.
pub open spec fn aggregation_fails(
    b: RecordBatch,
    group: Option<PhysicalExpr>,
    ops: Seq<AggrOperator>,
    schema: Schema,
    e: Error,
) -> bool {
    match group {
        None => !all_succeed(ops, b, seq![all_rows(b.num_rows as nat)]) || !fits_outputs(
            schema.fields@,
            Seq::empty(),
            ops,
        ),
        Some(g) => match eval_spec(g, b) {
            Err(f) => error_is(e, f),
            Ok((t, cells)) => exists|keys: ColumnVector|
                #[trigger] key_column(keys, t, cells) && (!groupable(t) && e is IntervalError
                    || !all_succeed(
                    ops,
                    b,
                    Seq::new(
                        group_firsts(keys).len(),
                        |h: int| group_members(keys, group_firsts(keys)[h] as int),
                    ),
                ) || !fits_outputs(schema.fields@, seq![t], ops)),
        },
    }
}

/// A join of `lb` and `rb` fails with `e`.
pub open spec fn join_fails(lb: RecordBatch, rb: RecordBatch, on: Seq<(usize, usize)>, schema: Schema, e: Error) -> bool {
    !keys_valid(lb, rb, on) && e is PhysicalPlanError || keys_valid(lb, rb, on) && !join_fits(
        lb,
        rb,
        on,
        schema,
    ) && e is ArrowError
}

/// Running `p` fails with `e`: an input fails, the input batches cannot be
/// joined, or the operator's own condition for `e` holds on them.
pub open spec fn fails(p: PhysicalPlan, e: Error) -> bool
    decreases p,
{
    match p {
        PhysicalPlan::Scan(s) => e is ArrowError && match s.projection {
            Some(idx) => !indices_below(idx@, s.source.schema.fields@.len()),
            None => false,
        },
        PhysicalPlan::Projection(x) => fails(*x.input, e) || exists|ins: Seq<RecordBatch>|
            #[trigger] projection_breaks(ins, x.schema.fields@, x.exprs@) && produces(*x.input, ins),
        PhysicalPlan::Selection(x) => fails(*x.input, e) || (exists|ins: Seq<RecordBatch>|
            #[trigger] concat_fails(ins, concat_fields(ins, x.input.schema_spec().fields@))
                && produces(*x.input, ins) && e is ArrowError) || exists|
            ins: Seq<RecordBatch>,
            b: RecordBatch,
        |
            #[trigger] concat_of(ins, concat_fields(ins, x.input.schema_spec().fields@), b)
                && produces(*x.input, ins) && select_fails(b, x.expr, e),
        PhysicalPlan::Aggregation(x) => fails(*x.input, e) || (exists|ins: Seq<RecordBatch>|
            #[trigger] concat_fails(ins, concat_fields(ins, x.input.schema_spec().fields@))
                && produces(*x.input, ins) && e is ArrowError) || exists|
            ins: Seq<RecordBatch>,
            b: RecordBatch,
        |
            #[trigger] concat_of(ins, concat_fields(ins, x.input.schema_spec().fields@), b)
                && produces(*x.input, ins) && aggregation_fails(
                b,
                x.group_expr,
                x.aggr_expr@,
                x.schema,
                e,
            ),
        PhysicalPlan::NestedLoopJoin(x) => if x.on@.len() == 0 {
            e is PhysicalPlanError
        } else {
            fails(*x.left, e) || fails(*x.right, e) || (exists|ls: Seq<RecordBatch>|
                #[trigger] concat_fails(ls, concat_fields(ls, x.left.schema_spec().fields@))
                    && produces(*x.left, ls) && e is ArrowError) || (exists|rs: Seq<RecordBatch>|
                #[trigger] concat_fails(rs, concat_fields(rs, x.right.schema_spec().fields@))
                    && produces(*x.right, rs) && e is ArrowError) || exists|
                ls: Seq<RecordBatch>,
                rs: Seq<RecordBatch>,
                lb: RecordBatch,
                rb: RecordBatch,
            |
                #![trigger concat_of(ls, concat_fields(ls, x.left.schema_spec().fields@), lb), concat_of(rs, concat_fields(rs, x.right.schema_spec().fields@), rb)]
                concat_of(ls, concat_fields(ls, x.left.schema_spec().fields@), lb) && concat_of(
                    rs,
                    concat_fields(rs, x.right.schema_spec().fields@),
                    rb,
                ) && produces(*x.left, ls) && produces(*x.right, rs) && join_fails(
                    lb,
                    rb,
                    key_pairs(x.on@),
                    x.schema,
                    e,
                )
        },
    }
}

/// The schema of the first batch, or `fallback` when there is none.
fn schema_of(batches: &Vec<RecordBatch>, fallback: &Schema) -> (r: Schema)
    ensures
        batches@.len() > 0 ==> r.fields@ == batches@[0].schema.fields@,
        batches@.len() == 0 ==> r.fields@ == fallback.fields@,
{
    if batches.len() > 0 {
        batches[0].schema.clone()
    } else {
        fallback.clone()
    }
}

/// The column indices of the key pairs.
fn key_indices(on: &Vec<(ColumnExpr, ColumnExpr)>) -> (r: Vec<(usize, usize)>)
    ensures
        r@.len() == on@.len(),
        forall|p: int| 0 <= p < on@.len() ==> (#[trigger] r@[p]) == (on@[p].0.index, on@[p].1.index),
{
    let mut out: Vec<(usize, usize)> = Vec::new();
    let mut p: usize = 0;
    while p < on.len()
        invariant
            p <= on@.len(),
            out@.len() == p,
            forall|q: int| 0 <= q < p ==> (#[trigger] out@[q]) == (on@[q].0.index, on@[q].1.index),
        decreases on@.len() - p,
    {
        out.push((on[p].0.index, on[p].1.index));
        p = p + 1;
    }
    out
}

impl PhysicalPlan {
    /// The tables under the plan are well formed.
    pub open spec fn wf(&self) -> bool
        decreases self,
    {
        match self {
            PhysicalPlan::Scan(s) => s.source.wf(),
            PhysicalPlan::Projection(p) => p.input.wf(),
            PhysicalPlan::Selection(s) => s.input.wf(),
            PhysicalPlan::Aggregation(a) => a.input.wf(),
            PhysicalPlan::NestedLoopJoin(j) => j.left.wf() && j.right.wf(),
        }
    }

    /// The schema that the plan declares.
    pub open spec fn schema_spec(&self) -> Schema
        decreases self,
    {
        match self {
            PhysicalPlan::Scan(s) => s.source.schema,
            PhysicalPlan::Projection(p) => p.schema,
            PhysicalPlan::Selection(s) => s.input.schema_spec(),
            PhysicalPlan::Aggregation(a) => a.schema,
            PhysicalPlan::NestedLoopJoin(j) => j.schema,
        }
    }

    pub fn schema(&self) -> (r: &Schema)
        ensures
            *r == self.schema_spec(),
        decreases self,
    {
        match self {
            PhysicalPlan::Scan(s) => &s.source.schema,
            PhysicalPlan::Projection(p) => &p.schema,
            PhysicalPlan::Selection(s) => s.input.schema(),
            PhysicalPlan::Aggregation(a) => &a.schema,
            PhysicalPlan::NestedLoopJoin(j) => &j.schema,
        }
    }

    /// The number of inputs of the plan's root.
    pub fn children(&self) -> (r: usize)
        ensures
            r == match self {
                PhysicalPlan::Scan(_) => 0nat,
                PhysicalPlan::NestedLoopJoin(_) => 2nat,
                _ => 1nat,
            },
    {
        match self {
            PhysicalPlan::Scan(_) => 0,
            PhysicalPlan::NestedLoopJoin(_) => 2,
            _ => 1,
        }
    }

    /// Runs the plan. Every batch it returns is well formed; a projection
    /// with fields, an aggregation and a join return batches of their own
    /// schema.
    pub fn execute(&self) -> (r: Result<Vec<RecordBatch>, Error>)
        requires
            self.wf(),
        ensures
            r matches Ok(bs) ==> produces(*self, bs@),
            r matches Err(e) ==> fails(*self, e),
            (self matches PhysicalPlan::NestedLoopJoin(j) && j.on@.len() == 0) ==> (r matches Err(e)
                && e is PhysicalPlanError),
            r matches Ok(bs) ==> forall|k: int| 0 <= k < bs@.len() ==> (#[trigger] bs@[k]).wf(),
            r matches Ok(bs) ==> match self {
                PhysicalPlan::Projection(p) => p.schema.fields@.len() > 0 ==> forall|k: int|
                    0 <= k < bs@.len() ==> (#[trigger] bs@[k]).schema.fields@ == p.schema.fields@,
                PhysicalPlan::Aggregation(a) => forall|k: int|
                    0 <= k < bs@.len() ==> (#[trigger] bs@[k]).schema.fields@ == a.schema.fields@,
                PhysicalPlan::NestedLoopJoin(j) => forall|k: int|
                    0 <= k < bs@.len() ==> (#[trigger] bs@[k]).schema.fields@ == j.schema.fields@,
                _ => true,
            },
        decreases self,
    {
        match self {
            PhysicalPlan::Scan(s) => {
                let r = s.source.scan(&s.projection);
                proof {
                    if r is Ok {
                        let bs = r->Ok_0;
                        assert(scanned(s.source, s.projection, bs@));
                        assert(produces(*self, bs@));
                        if s.projection is Some {
                            let idx = s.projection->Some_0;
                            assert forall|k: int| 0 <= k < bs@.len() implies (#[trigger] bs@[k]).wf() by {
                                assert(crate::table::projected_batch(
                                    s.source.schema.fields@,
                                    s.source.batches@[k],
                                    idx@,
                                    bs@[k],
                                ));
                            }
                        }
                    } else {
                        assert(fails(*self, r->Err_0));
                    }
                }
                r
            },
            PhysicalPlan::Projection(p) => {
                let input = match p.input.execute() {
                    Ok(v) => v,
                    Err(e) => {
                        assert(fails(*self, e));
                        return Err(e);
                    },
                };
                let r = project_batches(&input, &p.schema, &p.exprs);
                proof {
                    assert(produces(*p.input, input@));
                    if r is Ok {
                        assert(projected_all(input@, p.schema, p.exprs@, r->Ok_0@));
                        assert(produces(*self, r->Ok_0@));
                    } else {
                        assert(projection_breaks(input@, p.schema.fields@, p.exprs@));
                        assert(fails(*self, r->Err_0));
                    }
                }
                r
            },
            PhysicalPlan::Selection(s) => {
                let input = match s.input.execute() {
                    Ok(v) => v,
                    Err(e) => {
                        assert(fails(*self, e));
                        return Err(e);
                    },
                };
                let ghost fields = concat_fields(input@, s.input.schema_spec().fields@);
                let schema = schema_of(&input, s.input.schema());
                assert(schema.fields@ == fields);
                let batch = match concat_batches(&schema, &input) {
                    Ok(b) => b,
                    Err(e) => {
                        assert(concat_fails(input@, fields));
                        assert(produces(*s.input, input@));
                        assert(fails(*self, e));
                        return Err(e);
                    },
                };
                assert(concat_of(input@, fields, batch));
                assert(produces(*s.input, input@));
                match select_batch(&batch, &s.expr) {
                    Ok(b) => {
                        let mut out: Vec<RecordBatch> = Vec::new();
                        out.push(b);
                        proof {
                            assert(selected_by(batch, s.expr, out@[0]));
                            assert(produces(*self, out@));
                        }
                        Ok(out)
                    },
                    Err(e) => {
                        assert(select_fails(batch, s.expr, e));
                        assert(fails(*self, e));
                        Err(e)
                    },
                }
            },
            PhysicalPlan::Aggregation(a) => {
                let input = match a.input.execute() {
                    Ok(v) => v,
                    Err(e) => {
                        assert(fails(*self, e));
                        return Err(e);
                    },
                };
                let ghost fields = concat_fields(input@, a.input.schema_spec().fields@);
                let schema = schema_of(&input, a.input.schema());
                assert(schema.fields@ == fields);
                let batch = match concat_batches(&schema, &input) {
                    Ok(b) => b,
                    Err(e) => {
                        assert(concat_fails(input@, fields));
                        assert(produces(*a.input, input@));
                        assert(fails(*self, e));
                        return Err(e);
                    },
                };
                assert(concat_of(input@, fields, batch));
                assert(produces(*a.input, input@));
                let ghost mut key_col: ColumnVector = ColumnVector::Null(0);
                let result = match &a.group_expr {
                    None => aggregate_all(&batch, &a.aggr_expr, &a.schema),
                    Some(g) => {
                        let keys = match g.evaluate(&batch) {
                            Ok(k) => k.to_array(),
                            Err(e) => {
                                assert(aggregation_fails(batch, a.group_expr, a.aggr_expr@, a.schema, e));
                                assert(fails(*self, e));
                                return Err(e);
                            },
                        };
                        proof {
                            key_col = keys;
                            let (t, cells) = eval_spec(*g, batch)->Ok_0;
                            assert(key_column(keys, t, cells));
                        }
                        aggregate_grouped(&batch, &keys, &a.aggr_expr, &a.schema)
                    },
                };
                match result {
                    Ok(b) => {
                        let mut out: Vec<RecordBatch> = Vec::new();
                        out.push(b);
                        proof {
                            if a.group_expr is Some {
                                assert(grouped(key_col, batch, a.aggr_expr@, out@[0]));
                            } else {
                                assert(aggregated(batch, a.aggr_expr@, out@[0]));
                            }
                            assert(produces(*self, out@));
                        }
                        Ok(out)
                    },
                    Err(e) => {
                        assert(aggregation_fails(batch, a.group_expr, a.aggr_expr@, a.schema, e));
                        assert(fails(*self, e));
                        Err(e)
                    },
                }
            },
            PhysicalPlan::NestedLoopJoin(j) => {
                if j.on.len() == 0 {
                    return Err(Error::PhysicalPlanError("`on` cannot be empty when executing nested loop join".to_string()));
                }
                let left = match j.left.execute() {
                    Ok(v) => v,
                    Err(e) => {
                        assert(fails(*self, e));
                        return Err(e);
                    },
                };
                let right = match j.right.execute() {
                    Ok(v) => v,
                    Err(e) => {
                        assert(fails(*self, e));
                        return Err(e);
                    },
                };
                let ghost lf = concat_fields(left@, j.left.schema_spec().fields@);
                let ghost rf = concat_fields(right@, j.right.schema_spec().fields@);
                let ls = schema_of(&left, j.left.schema());
                let rs = schema_of(&right, j.right.schema());
                assert(ls.fields@ == lf && rs.fields@ == rf);
                assert(produces(*j.left, left@));
                assert(produces(*j.right, right@));
                let lb = match concat_batches(&ls, &left) {
                    Ok(b) => b,
                    Err(e) => {
                        assert(concat_fails(left@, lf));
                        assert(fails(*self, e));
                        return Err(e);
                    },
                };
                let rb = match concat_batches(&rs, &right) {
                    Ok(b) => b,
                    Err(e) => {
                        assert(concat_fails(right@, rf));
                        assert(fails(*self, e));
                        return Err(e);
                    },
                };
                assert(concat_of(left@, lf, lb));
                assert(concat_of(right@, rf, rb));
                let on = key_indices(&j.on);
                assert(on@ =~= key_pairs(j.on@));
                match join_batches(&lb, &rb, &on, &j.schema) {
                    Ok(b) => {
                        let mut out: Vec<RecordBatch> = Vec::new();
                        out.push(b);
                        proof {
                            assert(joined(lb, rb, key_pairs(j.on@), out@[0]));
                            assert(produces(*self, out@));
                        }
                        Ok(out)
                    },
                    Err(e) => {
                        assert(join_fails(lb, rb, key_pairs(j.on@), j.schema, e));
                        assert(fails(*self, e));
                        Err(e)
                    },
                }
            },
        }
    }
}

} // verus!
