use vstd::prelude::*;

use crate::array::{filter_spec, ColumnVector};
use crate::batch::{columns_fit, RecordBatch};
use crate::datatype::DataType;
use crate::error::Error;
use crate::physical_expr::{error_is, eval_spec, LiteralExpr, PhysicalExpr};
use crate::scalar::Scalar;

verus! {

/// The truth values of a predicate's cells; anything but a boolean reads as
/// null.
pub open spec fn truth_values(cells: Seq<Scalar>) -> Seq<Option<bool>> {
    Seq::new(
        cells.len(),
        |i: int|
            match cells[i] {
                Scalar::Boolean(v) => v,
                _ => None,
            },
    )
}

/// How many rows a selection by `p` keeps: those where `p` is true or null.
pub open spec fn kept_rows(p: Seq<Option<bool>>, n: nat) -> nat {
    filter_spec(Seq::new(n, |_i: int| None::<bool>), p).len()
}

/// Filtering any `n` values by `p` keeps `kept_rows(p, n)` of them.
pub proof fn lemma_filter_len<T>(v: Seq<Option<T>>, p: Seq<Option<bool>>)
    ensures
        filter_spec(v, p).len() == kept_rows(p, v.len()),
    decreases v.len(),
{
    let nulls = Seq::new(v.len(), |_i: int| None::<bool>);
    if v.len() > 0 {
        lemma_filter_len(v.drop_last(), p);
        assert(nulls.drop_last() =~= Seq::new((v.len() - 1) as nat, |_i: int| None::<bool>));
    }
}

/// A filtered column keeps `kept_rows` rows.
pub proof fn lemma_filtered_len(c: ColumnVector, p: Seq<Option<bool>>, r: ColumnVector)
    requires
        c.filtered_to(p, r),
    ensures
        r.len_spec() == kept_rows(p, c.len_spec()),
{
    match (c, r) {
        (ColumnVector::Boolean(a), ColumnVector::Boolean(b)) => lemma_filter_len(a@, p),
        (ColumnVector::Int64(a), ColumnVector::Int64(b)) => lemma_filter_len(a@, p),
        (ColumnVector::UInt64(a), ColumnVector::UInt64(b)) => lemma_filter_len(a@, p),
        (ColumnVector::Float64(a), ColumnVector::Float64(b)) => lemma_filter_len(a@, p),
        (ColumnVector::Utf8(a), ColumnVector::Utf8(b)) => lemma_filter_len(a@, p),
        _ => {},
    }
}

/// Filtering by a predicate that is true everywhere keeps every value.
pub proof fn lemma_filter_all_true<T>(v: Seq<Option<T>>, p: Seq<Option<bool>>)
    requires
        p.len() >= v.len(),
        forall|i: int| 0 <= i < v.len() ==> p[i] == Some(true),
    ensures
        filter_spec(v, p) == v,
    decreases v.len(),
{
    if v.len() > 0 {
        lemma_filter_all_true(v.drop_last(), p);
        assert(v.drop_last().push(v.last()) =~= v);
    }
}

/// Filtering by a predicate that is false everywhere keeps nothing.
pub proof fn lemma_filter_all_false<T>(v: Seq<Option<T>>, p: Seq<Option<bool>>)
    requires
        p.len() >= v.len(),
        forall|i: int| 0 <= i < v.len() ==> p[i] == Some(false),
    ensures
        filter_spec(v, p).len() == 0,
    decreases v.len(),
{
    if v.len() > 0 {
        lemma_filter_all_false(v.drop_last(), p);
    }
}

/// `out` is batch `b` filtered by `expr`: `expr` evaluates to a Boolean
/// column `p`, and each column of `out` holds the rows of the matching
/// column of `b` where `p` is true, with a null where `p` is null.
pub open spec fn selected_by(b: RecordBatch, expr: PhysicalExpr, out: RecordBatch) -> bool {
    match eval_spec(expr, b) {
        Ok((t, cells)) => {
            let p = truth_values(cells);
            &&& t == DataType::Boolean
            &&& out.wf()
            &&& out.schema.fields@ == b.schema.fields@
            &&& out.num_rows == kept_rows(p, b.num_rows as nat)
            &&& out.columns@.len() == b.columns@.len()
            &&& forall|j: int|
                0 <= j < b.columns@.len() ==> (#[trigger] b.columns@[j]).filtered_to(
                    p,
                    out.columns@[j],
                )
        },
        Err(_) => false,
    }
}

/// Keeps the rows of `batch` where `expr` is true; a row where it is null
/// stays, with a null in every column.
pub fn select_batch(batch: &RecordBatch, expr: &PhysicalExpr) -> (r: Result<RecordBatch, Error>)
    requires
        batch.wf(),
    ensures
        match r {
            Ok(out) => selected_by(*batch, *expr, out),
            Err(e) => match eval_spec(*expr, *batch) {
                Err(f) => error_is(e, f),
                Ok((t, _)) => t != DataType::Boolean && e is IntervalError,
            },
        },
{
    let value = match expr.evaluate(batch) {
        Ok(v) => v,
        Err(e) => {
            return Err(e);
        },
    };
    let ghost cells = value.cells();
    let col = value.to_array();
    let p = match col {
        ColumnVector::Boolean(p) => p,
        _ => {
            return Err(Error::IntervalError("the predicate of a selection must be Boolean".to_string()));
        },
    };
    assert(p@ =~= truth_values(cells)) by {
        assert forall|i: int| 0 <= i < p@.len() implies p@[i] == truth_values(cells)[i] by {
            assert(cells[i] == Scalar::Boolean(p@[i]));
        }
    }
    let mut columns: Vec<ColumnVector> = Vec::new();
    let mut j: usize = 0;
    while j < batch.columns.len()
        invariant
            batch.wf(),
            p@.len() == batch.num_rows,
            j <= batch.columns@.len(),
            columns@.len() == j,
            forall|k: int|
                0 <= k < j ==> (#[trigger] batch.columns@[k]).filtered_to(p@, columns@[k])
                    && columns@[k].data_type_spec() == batch.columns@[k].data_type_spec()
                    && columns@[k].len_spec() == kept_rows(p@, batch.num_rows as nat),
        decreases batch.columns@.len() - j,
    {
        let c = batch.columns[j].filter(&p);
        proof {
            lemma_filtered_len(batch.columns@[j as int], p@, c);
        }
        columns.push(c);
        j = j + 1;
    }
    let n = kept_count(&p);
    let out = RecordBatch { schema: batch.schema.clone(), columns, num_rows: n };
    assert forall|k: int| 0 <= k < out.columns@.len() implies (#[trigger] out.columns@[k]).len_spec()
        == n && out.columns@[k].data_type_spec() == out.schema.fields@[k].data_type by {
        assert(batch.columns@[k].data_type_spec() == batch.schema.fields@[k].data_type);
    }
    assert(columns_fit(out.schema.fields@, out.columns@, n as nat));
    Ok(out)
}

/// How many rows a selection by `p` keeps.
pub fn kept_count(p: &Vec<Option<bool>>) -> (n: usize)
    ensures
        n == kept_rows(p@, p@.len()),
{
    let nulls: Vec<Option<bool>> = crate::array::repeat_copy(None, p.len());
    let kept = crate::array::filter_copy(&nulls, p);
    kept.len()
}

/// Filtering a column by a predicate that is true on every row keeps the
/// column as it is; by one that is false on every row, keeps no row.
pub proof fn lemma_filter_constant(c: ColumnVector, p: Seq<Option<bool>>, r: ColumnVector, keep: bool)
    requires
        c.filtered_to(p, r),
        p.len() == c.len_spec(),
        forall|i: int| 0 <= i < p.len() ==> p[i] == Some(keep),
    ensures
        keep ==> r.cells() == c.cells() && r.len_spec() == c.len_spec(),
        !keep ==> r.len_spec() == 0,
{
    let nulls = Seq::new(c.len_spec(), |_i: int| None::<bool>);
    match (c, r) {
        (ColumnVector::Null(_), ColumnVector::Null(_)) => {
            if keep {
                lemma_filter_all_true(nulls, p);
                assert(r.cells() =~= c.cells());
            } else {
                lemma_filter_all_false(nulls, p);
            }
        },
        (ColumnVector::Boolean(a), ColumnVector::Boolean(b)) => {
            if keep { lemma_filter_all_true(a@, p); } else { lemma_filter_all_false(a@, p); }
        },
        (ColumnVector::Int64(a), ColumnVector::Int64(b)) => {
            if keep { lemma_filter_all_true(a@, p); } else { lemma_filter_all_false(a@, p); }
        },
        (ColumnVector::UInt64(a), ColumnVector::UInt64(b)) => {
            if keep { lemma_filter_all_true(a@, p); } else { lemma_filter_all_false(a@, p); }
        },
        (ColumnVector::Float64(a), ColumnVector::Float64(b)) => {
            if keep { lemma_filter_all_true(a@, p); } else { lemma_filter_all_false(a@, p); }
        },
        (ColumnVector::Utf8(a), ColumnVector::Utf8(b)) => {
            if keep { lemma_filter_all_true(a@, p); } else { lemma_filter_all_false(a@, p); }
        },
        _ => {},
    }
}

/// A selection by the literal `true` keeps every row of its input, and a
/// selection by the literal `false` keeps none.
pub proof fn law_selection_by_constant(b: RecordBatch, keep: bool, out: RecordBatch)
    requires
        b.wf(),
        selected_by(
            b,
            PhysicalExpr::Literal(LiteralExpr { scalar: Scalar::Boolean(Some(keep)) }),
            out,
        ),
    ensures
        keep ==> out.num_rows == b.num_rows && out.columns@.len() == b.columns@.len() && forall|
            j: int,
        |
            0 <= j < b.columns@.len() ==> (#[trigger] out.columns@[j]).cells()
                == b.columns@[j].cells(),
        !keep ==> out.num_rows == 0,
{
    let lit = Scalar::Boolean(Some(keep));
    let cells = Seq::new(b.num_rows as nat, |_i: int| lit);
    let p = truth_values(cells);
    assert forall|j: int| 0 <= j < b.columns@.len() implies (keep ==> (#[trigger] out.columns@[j]).cells()
        == b.columns@[j].cells()) && (!keep ==> out.columns@[j].len_spec() == 0) by {
        assert(b.columns@[j].len_spec() == b.num_rows);
        lemma_filter_constant(b.columns@[j], p, out.columns@[j], keep);
    }
    let nulls = Seq::new(b.num_rows as nat, |_i: int| None::<bool>);
    if keep {
        lemma_filter_all_true(nulls, p);
    } else {
        lemma_filter_all_false(nulls, p);
    }
}

} // verus!
