use vstd::prelude::*;

use crate::array::ColumnVector;
use crate::batch::{columns_fit, RecordBatch};
use crate::datatype::{Field, Schema};
use crate::error::Error;
use crate::physical_expr::{eval_spec, PhysicalExpr};
use crate::table::copy_batch;

verus! {

/// Every expression evaluates over `b` to a column of its field's type.
pub open spec fn projection_fits(b: RecordBatch, fields: Seq<Field>, exprs: Seq<PhysicalExpr>) -> bool {
    &&& exprs.len() == fields.len()
    &&& forall|j: int|
        0 <= j < exprs.len() ==> match eval_spec(#[trigger] exprs[j], b) {
            Ok((t, _)) => t == fields[j].data_type,
            Err(_) => false,
        }
}

/// `out` holds, in column `j`, the values of expression `j` over `b`.
pub open spec fn projected_by(b: RecordBatch, exprs: Seq<PhysicalExpr>, out: RecordBatch) -> bool {
    &&& out.num_rows == b.num_rows
    &&& out.columns@.len() == exprs.len()
    &&& forall|j: int|
        0 <= j < exprs.len() ==> match eval_spec(#[trigger] exprs[j], b) {
            Ok((_, cells)) => out.columns@[j].cells() == cells,
            Err(_) => false,
        }
}

/// Evaluates the expressions over one batch and binds the results to
/// `schema`.
pub fn project_batch_exprs(batch: &RecordBatch, schema: &Schema, exprs: &Vec<PhysicalExpr>) -> (r: Result<
    RecordBatch,
    Error,
>)
    requires
        batch.wf(),
    ensures
        match r {
            Ok(out) => out.wf() && out.schema.fields@ == schema.fields@ && projected_by(
                *batch,
                exprs@,
                out,
            ),
            Err(_) => !projection_fits(*batch, schema.fields@, exprs@),
        },
{
    let mut columns: Vec<ColumnVector> = Vec::new();
    let mut j: usize = 0;
    while j < exprs.len()
        invariant
            batch.wf(),
            j <= exprs@.len(),
            columns@.len() == j,
            forall|k: int|
                0 <= k < j ==> match eval_spec(#[trigger] exprs@[k], *batch) {
                    Ok((t, cells)) => columns@[k].cells() == cells && columns@[k].data_type_spec()
                        == t && columns@[k].len_spec() == batch.num_rows,
                    Err(_) => false,
                },
        decreases exprs@.len() - j,
    {
        let v = match exprs[j].evaluate(batch) {
            Ok(v) => v,
            Err(e) => {
                assert(eval_spec(exprs@[j as int], *batch) is Err);
                return Err(e);
            },
        };
        columns.push(v.to_array());
        j = j + 1;
    }
    let ghost cols = columns@;
    match RecordBatch::try_new(schema.clone(), columns, batch.num_rows) {
        Ok(out) => Ok(out),
        Err(e) => {
            proof {
                if projection_fits(*batch, schema.fields@, exprs@) {
                    assert forall|k: int| 0 <= k < cols.len() implies (#[trigger] cols[k]).len_spec()
                        == batch.num_rows && cols[k].data_type_spec()
                        == schema.fields@[k].data_type by {
                        assert(eval_spec(exprs@[k], *batch) is Ok);
                    }
                    assert(columns_fit(schema.fields@, cols, batch.num_rows as nat));
                }
            }
            Err(e)
        },
    }
}

/// Evaluates the expressions over every batch. With no fields in `schema`
/// the batches pass through unchanged.
pub fn project_batches(input: &Vec<RecordBatch>, schema: &Schema, exprs: &Vec<PhysicalExpr>) -> (r:
    Result<Vec<RecordBatch>, Error>)
    requires
        forall|k: int| 0 <= k < input@.len() ==> (#[trigger] input@[k]).wf(),
    ensures
        match r {
            Ok(out) => out@.len() == input@.len() && forall|k: int|
                0 <= k < input@.len() ==> (#[trigger] out@[k]).wf() && if schema.fields@.len()
                    == 0 {
                    out@[k].num_rows == input@[k].num_rows && out@[k].schema.fields@
                        == input@[k].schema.fields@ && out@[k].columns@.len()
                        == input@[k].columns@.len() && forall|j: int|
                        0 <= j < input@[k].columns@.len() ==> out@[k].columns@[j].cells()
                            == input@[k].columns@[j].cells()
                } else {
                    out@[k].schema.fields@ == schema.fields@ && projected_by(
                        input@[k],
                        exprs@,
                        out@[k],
                    )
                },
            Err(_) => schema.fields@.len() != 0 && exists|k: int|
                0 <= k < input@.len() && !projection_fits(
                    #[trigger] input@[k],
                    schema.fields@,
                    exprs@,
                ),
        },
{
    let mut out: Vec<RecordBatch> = Vec::new();
    let mut k: usize = 0;
    while k < input.len()
        invariant
            forall|m: int| 0 <= m < input@.len() ==> (#[trigger] input@[m]).wf(),
            k <= input@.len(),
            out@.len() == k,
            forall|m: int|
                0 <= m < k ==> (#[trigger] out@[m]).wf() && if schema.fields@.len() == 0 {
                    out@[m].num_rows == input@[m].num_rows && out@[m].schema.fields@
                        == input@[m].schema.fields@ && out@[m].columns@.len()
                        == input@[m].columns@.len() && forall|j: int|
                        0 <= j < input@[m].columns@.len() ==> out@[m].columns@[j].cells()
                            == input@[m].columns@[j].cells()
                } else {
                    out@[m].schema.fields@ == schema.fields@ && projected_by(
                        input@[m],
                        exprs@,
                        out@[m],
                    )
                },
        decreases input@.len() - k,
    {
        let b = &input[k];
        assert(b.wf());
        if schema.fields.len() == 0 {
            let c = copy_batch(b, &b.schema);
            assert forall|j: int| 0 <= j < c.columns@.len() implies (#[trigger] c.columns@[j]).len_spec()
                == c.num_rows && c.columns@[j].data_type_spec()
                == c.schema.fields@[j].data_type by {
                assert(b.columns@[j].len_spec() == b.num_rows);
            }
            out.push(c);
        } else {
            match project_batch_exprs(b, schema, exprs) {
                Ok(c) => out.push(c),
                Err(e) => {
                    return Err(e);
                },
            }
        }
        k = k + 1;
    }
    Ok(out)
}

} // verus!
