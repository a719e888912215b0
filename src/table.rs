use vstd::prelude::*;

use crate::array::ColumnVector;
use crate::batch::{columns_fit, RecordBatch};
use crate::datatype::{Field, Schema};
use crate::error::Error;

verus! {

/// A data source held in memory: a schema and the batches that a scan
/// returns, with a label for display.
#[derive(Debug)]
pub struct Table {
    pub schema: Schema,
    pub batches: Vec<RecordBatch>,
    pub source_type: String,
}

/// The fields at the positions `idx`, in that order.
pub open spec fn project_fields(fields: Seq<Field>, idx: Seq<usize>) -> Seq<Field> {
    Seq::new(idx.len(), |j: int| fields[idx[j] as int])
}

/// Every index is below `n`.
pub open spec fn indices_below(idx: Seq<usize>, n: nat) -> bool {
    forall|j: int| 0 <= j < idx.len() ==> (#[trigger] idx[j]) < n
}

/// `out` is batch `b` restricted to the columns at `idx`, in that order.
pub open spec fn projected_batch(
    fields: Seq<Field>,
    b: RecordBatch,
    idx: Seq<usize>,
    out: RecordBatch,
) -> bool {
    &&& out.wf()
    &&& out.num_rows == b.num_rows
    &&& out.schema.fields@ == project_fields(fields, idx)
    &&& out.columns@.len() == idx.len()
    &&& forall|j: int|
        0 <= j < idx.len() ==> (#[trigger] out.columns@[j]).cells() == b.columns@[idx[j] as int].cells()
}

/// Every index is below `n`.
pub fn all_below(idx: &Vec<usize>, n: usize) -> (r: bool)
    ensures
        r == indices_below(idx@, n as nat),
{
    let mut j: usize = 0;
    while j < idx.len()
        invariant
            j <= idx@.len(),
            forall|m: int| 0 <= m < j ==> (#[trigger] idx@[m]) < n,
        decreases idx@.len() - j,
    {
        if idx[j] >= n {
            assert(idx@[j as int] >= n);
            return false;
        }
        j = j + 1;
    }
    true
}

/// A copy of a batch's columns, bound to `schema`.
pub fn copy_batch(b: &RecordBatch, schema: &Schema) -> (r: RecordBatch)
    ensures
        r.schema.fields@ == schema.fields@,
        r.num_rows == b.num_rows,
        r.columns@.len() == b.columns@.len(),
        forall|j: int|
            0 <= j < b.columns@.len() ==> (#[trigger] r.columns@[j]).cells() == b.columns@[j].cells()
                && r.columns@[j].len_spec() == b.columns@[j].len_spec()
                && r.columns@[j].data_type_spec() == b.columns@[j].data_type_spec(),
{
    let mut columns: Vec<ColumnVector> = Vec::new();
    let mut j: usize = 0;
    while j < b.columns.len()
        invariant
            j <= b.columns@.len(),
            columns@.len() == j,
            forall|k: int|
                0 <= k < j ==> (#[trigger] columns@[k]).cells() == b.columns@[k].cells()
                    && columns@[k].len_spec() == b.columns@[k].len_spec()
                    && columns@[k].data_type_spec() == b.columns@[k].data_type_spec(),
        decreases b.columns@.len() - j,
    {
        let c = b.columns[j].copy();
        assert(c.cells() =~= b.columns@[j as int].cells());
        columns.push(c);
        j = j + 1;
    }
    RecordBatch { schema: schema.clone(), columns, num_rows: b.num_rows }
}

/// Restricts a well-formed batch to the columns at `idx`, which must all be
/// in range.
pub fn project_batch(b: &RecordBatch, schema: &Schema, idx: &Vec<usize>) -> (r: RecordBatch)
    requires
        columns_fit(schema.fields@, b.columns@, b.num_rows as nat),
        indices_below(idx@, b.columns@.len()),
    ensures
        projected_batch(schema.fields@, *b, idx@, r),
{
    let mut columns: Vec<ColumnVector> = Vec::new();
    let mut fields: Vec<Field> = Vec::new();
    let mut j: usize = 0;
    while j < idx.len()
        invariant
            columns_fit(schema.fields@, b.columns@, b.num_rows as nat),
            indices_below(idx@, b.columns@.len()),
            j <= idx@.len(),
            columns@.len() == j,
            fields@ == project_fields(schema.fields@, idx@.subrange(0, j as int)),
            forall|k: int|
                0 <= k < j ==> (#[trigger] columns@[k]).cells() == b.columns@[idx@[k] as int].cells()
                    && columns@[k].len_spec() == b.num_rows
                    && columns@[k].data_type_spec() == schema.fields@[idx@[k] as int].data_type,
        decreases idx@.len() - j,
    {
        let i = idx[j];
        let c = b.columns[i].copy();
        assert(c.cells() =~= b.columns@[i as int].cells());
        columns.push(c);
        fields.push(schema.fields[i].clone());
        j = j + 1;
        assert(fields@ =~= project_fields(schema.fields@, idx@.subrange(0, j as int)));
    }
    assert(idx@.subrange(0, idx@.len() as int) =~= idx@);
    RecordBatch { schema: Schema { fields }, columns, num_rows: b.num_rows }
}

/// `bs` is what a scan of `t` returns: its batches, restricted to the
/// columns at `projection` when one is given.
pub open spec fn scanned(t: Table, projection: Option<Vec<usize>>, bs: Seq<RecordBatch>) -> bool {
    &&& bs.len() == t.batches@.len()
    &&& match projection {
        Some(idx) => indices_below(idx@, t.schema.fields@.len()) && forall|k: int|
            0 <= k < bs.len() ==> projected_batch(t.schema.fields@, t.batches@[k], idx@, #[trigger] bs[k]),
        None => forall|k: int|
            0 <= k < bs.len() ==> (#[trigger] bs[k]).wf() && bs[k].num_rows == t.batches@[k].num_rows
                && bs[k].schema.fields@ == t.schema.fields@ && forall|j: int|
                0 <= j < bs[k].columns@.len() ==> bs[k].columns@[j].cells()
                    == t.batches@[k].columns@[j].cells(),
    }
}

impl Table {
    /// Every batch is well formed and carries the table's fields.
    pub open spec fn wf(&self) -> bool {
        forall|k: int|
            0 <= k < self.batches@.len() ==> columns_fit(
                self.schema.fields@,
                (#[trigger] self.batches@[k]).columns@,
                self.batches@[k].num_rows as nat,
            )
    }

    /// Makes a table; fails unless every batch fits `schema`.
    pub fn try_new(schema: Schema, batches: Vec<RecordBatch>, source_type: String) -> (r: Result<
        Table,
        Error,
    >)
        ensures
            match r {
                Ok(t) => t.wf() && t.schema == schema && t.batches@ == batches@ && t.source_type
                    == source_type,
                Err(e) => e is ArrowError && !(forall|k: int|
                    0 <= k < batches@.len() ==> columns_fit(
                        schema.fields@,
                        (#[trigger] batches@[k]).columns@,
                        batches@[k].num_rows as nat,
                    )),
            },
    {
        let mut k: usize = 0;
        while k < batches.len()
            invariant
                k <= batches@.len(),
                forall|m: int|
                    0 <= m < k ==> columns_fit(
                        schema.fields@,
                        (#[trigger] batches@[m]).columns@,
                        batches@[m].num_rows as nat,
                    ),
            decreases batches@.len() - k,
        {
            let b = &batches[k];
            if b.columns.len() != schema.fields.len() {
                assert(!columns_fit(schema.fields@, batches@[k as int].columns@, b.num_rows as nat));
                return Err(Error::ArrowError("batch does not fit the table schema".to_string()));
            }
            let mut j: usize = 0;
            while j < schema.fields.len()
                invariant
                    j <= schema.fields@.len(),
                    b.columns@.len() == schema.fields@.len(),
                    k < batches@.len(),
                    *b == batches@[k as int],
                    forall|i: int|
                        0 <= i < j ==> (#[trigger] b.columns@[i]).len_spec() == b.num_rows
                            && b.columns@[i].data_type_spec() == schema.fields@[i].data_type,
                decreases schema.fields@.len() - j,
            {
                if b.columns[j].len() != b.num_rows || b.columns[j].data_type()
                    != schema.fields[j].data_type {
                    assert(!columns_fit(
                        schema.fields@,
                        batches@[k as int].columns@,
                        b.num_rows as nat,
                    )) by {
                        assert(b.columns@[j as int].len_spec() != b.num_rows
                            || b.columns@[j as int].data_type_spec() != schema.fields@[j as int].data_type);
                    }
                    return Err(Error::ArrowError("batch does not fit the table schema".to_string()));
                }
                j = j + 1;
            }
            k = k + 1;
        }
        Ok(Table { schema, batches, source_type })
    }

    pub fn schema(&self) -> (r: &Schema)
        ensures
            *r == self.schema,
    {
        &self.schema
    }

    pub fn source_type(&self) -> (r: &String)
        ensures
            *r == self.source_type,
    {
        &self.source_type
    }

    /// The table's batches, restricted to the columns at `projection` when
    /// one is given; fails when an index is out of range.
    pub fn scan(&self, projection: &Option<Vec<usize>>) -> (r: Result<Vec<RecordBatch>, Error>)
        requires
            self.wf(),
        ensures
            r matches Ok(bs) ==> scanned(*self, *projection, bs@),
            match *projection {
                Some(idx) => match r {
                    Ok(bs) => indices_below(idx@, self.schema.fields@.len()) && bs@.len()
                        == self.batches@.len() && forall|k: int|
                        0 <= k < bs@.len() ==> projected_batch(
                            self.schema.fields@,
                            self.batches@[k],
                            idx@,
                            #[trigger] bs@[k],
                        ),
                    Err(e) => e is ArrowError && !indices_below(idx@, self.schema.fields@.len()),
                },
                None => match r {
                    Ok(bs) => bs@.len() == self.batches@.len() && forall|k: int|
                        0 <= k < bs@.len() ==> (#[trigger] bs@[k]).wf() && bs@[k].num_rows
                            == self.batches@[k].num_rows && bs@[k].schema.fields@
                            == self.schema.fields@ && forall|j: int|
                            0 <= j < bs@[k].columns@.len() ==> bs@[k].columns@[j].cells()
                                == self.batches@[k].columns@[j].cells(),
                    Err(_) => false,
                },
            },
    {
        let mut out: Vec<RecordBatch> = Vec::new();
        match projection {
            Some(idx) => {
                if !all_below(idx, self.schema.fields.len()) {
                    return Err(Error::ArrowError("projection index out of range".to_string()));
                }
                let mut k: usize = 0;
                while k < self.batches.len()
                    invariant
                        self.wf(),
                        indices_below(idx@, self.schema.fields@.len()),
                        k <= self.batches@.len(),
                        out@.len() == k,
                        forall|m: int|
                            0 <= m < k ==> projected_batch(
                                self.schema.fields@,
                                self.batches@[m],
                                idx@,
                                #[trigger] out@[m],
                            ),
                    decreases self.batches@.len() - k,
                {
                    assert(columns_fit(
                        self.schema.fields@,
                        self.batches@[k as int].columns@,
                        self.batches@[k as int].num_rows as nat,
                    ));
                    out.push(project_batch(&self.batches[k], &self.schema, idx));
                    k = k + 1;
                }
            },
            None => {
                let mut k: usize = 0;
                while k < self.batches.len()
                    invariant
                        self.wf(),
                        k <= self.batches@.len(),
                        out@.len() == k,
                        forall|m: int|
                            0 <= m < k ==> (#[trigger] out@[m]).wf() && out@[m].num_rows
                                == self.batches@[m].num_rows && out@[m].schema.fields@
                                == self.schema.fields@ && forall|j: int|
                                0 <= j < out@[m].columns@.len() ==> out@[m].columns@[j].cells()
                                    == self.batches@[m].columns@[j].cells(),
                    decreases self.batches@.len() - k,
                {
                    assert(columns_fit(
                        self.schema.fields@,
                        self.batches@[k as int].columns@,
                        self.batches@[k as int].num_rows as nat,
                    ));
                    let b = copy_batch(&self.batches[k], &self.schema);
                    out.push(b);
                    k = k + 1;
                }
            },
        }
        Ok(out)
    }
}

/// The two tables hold the same schema, label and values.
pub open spec fn same_table(a: Table, b: Table) -> bool {
    &&& b.schema.fields@ == a.schema.fields@
    &&& b.source_type == a.source_type
    &&& b.batches@.len() == a.batches@.len()
    &&& forall|k: int|
        0 <= k < a.batches@.len() ==> (#[trigger] b.batches@[k]).num_rows == a.batches@[k].num_rows
            && b.batches@[k].columns@.len() == a.batches@[k].columns@.len() && forall|j: int|
            0 <= j < a.batches@[k].columns@.len() ==> b.batches@[k].columns@[j].cells()
                == a.batches@[k].columns@[j].cells()
}

impl Clone for Table {
    fn clone(&self) -> (r: Self)
        ensures
            self.wf() ==> r.wf(),
            same_table(*self, r),
    {
        let mut batches: Vec<RecordBatch> = Vec::new();
        let mut k: usize = 0;
        while k < self.batches.len()
            invariant
                k <= self.batches@.len(),
                batches@.len() == k,
                forall|m: int|
                    0 <= m < k ==> (#[trigger] batches@[m]).num_rows == self.batches@[m].num_rows
                        && batches@[m].schema.fields@ == self.schema.fields@
                        && batches@[m].columns@.len() == self.batches@[m].columns@.len()
                        && forall|j: int|
                        0 <= j < self.batches@[m].columns@.len() ==> batches@[m].columns@[j].cells()
                            == self.batches@[m].columns@[j].cells()
                            && batches@[m].columns@[j].len_spec()
                            == self.batches@[m].columns@[j].len_spec()
                            && batches@[m].columns@[j].data_type_spec()
                            == self.batches@[m].columns@[j].data_type_spec(),
            decreases self.batches@.len() - k,
        {
            batches.push(copy_batch(&self.batches[k], &self.schema));
            k = k + 1;
        }
        Table { schema: self.schema.clone(), batches, source_type: self.source_type.clone() }
    }
}

} // verus!
