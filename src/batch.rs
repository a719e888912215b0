use vstd::prelude::*;

use crate::array::{lemma_appended_cells, ColumnVector};
use crate::datatype::{DataType, Field, Schema};
use crate::error::Error;
use crate::scalar::Scalar;

verus! {

/// The value of an expression over a batch: a materialized column, or one
/// literal value standing for every one of `n` rows.
#[derive(Debug)]
pub enum ColumnArray {
    Array(ColumnVector),
    Literal(Scalar, usize),
}

impl ColumnArray {
    pub open spec fn len_spec(&self) -> nat {
        match self {
            ColumnArray::Array(c) => c.len_spec(),
            ColumnArray::Literal(_, n) => *n as nat,
        }
    }

    pub open spec fn data_type_spec(&self) -> DataType {
        match self {
            ColumnArray::Array(c) => c.data_type_spec(),
            ColumnArray::Literal(s, _) => s.data_type_spec(),
        }
    }

    /// The value of row `i`.
    pub open spec fn cell(&self, i: int) -> Scalar {
        match self {
            ColumnArray::Array(c) => c.cell(i),
            ColumnArray::Literal(s, _) => *s,
        }
    }

    pub open spec fn cells(&self) -> Seq<Scalar> {
        Seq::new(self.len_spec(), |i: int| self.cell(i))
    }

    /// `c` is this value, materialized.
    pub open spec fn materializes_to(&self, c: ColumnVector) -> bool {
        match self {
            ColumnArray::Array(a) => a.same_as(c),
            ColumnArray::Literal(s, n) => s.repeated_in(c, *n as nat),
        }
    }

    pub fn data_type(&self) -> (r: DataType)
        ensures
            r == self.data_type_spec(),
    {
        match self {
            ColumnArray::Array(c) => c.data_type(),
            ColumnArray::Literal(s, _) => s.data_type(),
        }
    }

    pub fn len(&self) -> (r: usize)
        ensures
            r == self.len_spec(),
    {
        match self {
            ColumnArray::Array(c) => c.len(),
            ColumnArray::Literal(_, n) => *n,
        }
    }

    /// Materializes the value as a column.
    pub fn to_array(self) -> (r: ColumnVector)
        ensures
            self.materializes_to(r),
            r.len_spec() == self.len_spec(),
            r.data_type_spec() == self.data_type_spec(),
            r.cells() =~= self.cells(),
    {
        match self {
            ColumnArray::Array(c) => c,
            ColumnArray::Literal(s, n) => s.to_array(n),
        }
    }
}

/// A schema bound to one column per field, all of the same length.
#[derive(Debug)]
pub struct RecordBatch {
    pub schema: Schema,
    pub columns: Vec<ColumnVector>,
    pub num_rows: usize,
}

/// The columns have the types of the fields, one for one, and `n` rows each.
pub open spec fn columns_fit(fields: Seq<Field>, columns: Seq<ColumnVector>, n: nat) -> bool {
    &&& columns.len() == fields.len()
    &&& forall|i: int|
        0 <= i < columns.len() ==> (#[trigger] columns[i]).len_spec() == n
            && columns[i].data_type_spec() == fields[i].data_type
}

/// The field types of a schema.
pub open spec fn types_of(fields: Seq<Field>) -> Seq<DataType> {
    Seq::new(fields.len(), |i: int| fields[i].data_type)
}

impl RecordBatch {
    /// The batch is well formed: one column per field, of the field's type,
    /// each with `num_rows` rows.
    pub open spec fn wf(&self) -> bool {
        columns_fit(self.schema.fields@, self.columns@, self.num_rows as nat)
    }

    /// Binds `columns` to `schema`; fails unless they fit it and all have
    /// `num_rows` rows.
    pub fn try_new(schema: Schema, columns: Vec<ColumnVector>, num_rows: usize) -> (r: Result<
        RecordBatch,
        Error,
    >)
        ensures
            match r {
                Ok(b) => b.wf() && b.schema == schema && b.columns == columns && b.num_rows
                    == num_rows,
                Err(e) => e is ArrowError && !columns_fit(
                    schema.fields@,
                    columns@,
                    num_rows as nat,
                ),
            },
    {
        if columns.len() != schema.fields.len() {
            return Err(Error::ArrowError("number of columns must match number of fields".to_string()));
        }
        let mut i: usize = 0;
        while i < columns.len()
            invariant
                i <= columns@.len(),
                columns@.len() == schema.fields@.len(),
                forall|k: int|
                    0 <= k < i ==> (#[trigger] columns@[k]).len_spec() == num_rows
                        && columns@[k].data_type_spec() == schema.fields@[k].data_type,
            decreases columns@.len() - i,
        {
            if columns[i].len() != num_rows {
                return Err(Error::ArrowError("all columns must have the same length".to_string()));
            }
            if columns[i].data_type() != schema.fields[i].data_type {
                return Err(Error::ArrowError("column types must match schema types".to_string()));
            }
            i = i + 1;
        }
        Ok(RecordBatch { schema, columns, num_rows })
    }

    pub fn num_rows(&self) -> (r: usize)
        ensures
            r == self.num_rows,
    {
        self.num_rows
    }

    pub fn num_columns(&self) -> (r: usize)
        ensures
            r == self.columns@.len(),
    {
        self.columns.len()
    }

    pub fn column(&self, i: usize) -> (r: &ColumnVector)
        requires
            i < self.columns@.len(),
        ensures
            *r == self.columns@[i as int],
    {
        &self.columns[i]
    }

    pub fn schema(&self) -> (r: &Schema)
        ensures
            *r == self.schema,
    {
        &self.schema
    }
}

/// The rows of all batches, one after the other.
pub open spec fn total_rows(bs: Seq<RecordBatch>) -> nat
    decreases bs.len(),
{
    if bs.len() == 0 {
        0
    } else {
        total_rows(bs.drop_last()) + bs.last().num_rows as nat
    }
}

/// A prefix of the batches holds no more rows than all of them.
pub proof fn lemma_total_rows_prefix(bs: Seq<RecordBatch>, i: int)
    requires
        0 <= i <= bs.len(),
    ensures
        total_rows(bs.subrange(0, i)) <= total_rows(bs),
    decreases bs.len(),
{
    if i < bs.len() {
        lemma_total_rows_prefix(bs.drop_last(), i);
        assert(bs.drop_last().subrange(0, i) =~= bs.subrange(0, i));
    } else {
        assert(bs.subrange(0, i) =~= bs);
    }
}

/// The values of column `j` of all batches, one batch after the other.
pub open spec fn concat_cells(bs: Seq<RecordBatch>, j: int) -> Seq<Scalar>
    decreases bs.len(),
{
    if bs.len() == 0 {
        Seq::empty()
    } else {
        concat_cells(bs.drop_last(), j) + bs.last().columns@[j].cells()
    }
}

/// Every batch has columns of the types in `types`.
pub open spec fn batches_fit(bs: Seq<RecordBatch>, types: Seq<DataType>) -> bool {
    forall|k: int|
        0 <= k < bs.len() ==> (#[trigger] bs[k]).wf() && bs[k].columns@.len() == types.len()
            && forall|j: int|
            0 <= j < types.len() ==> bs[k].columns@[j].data_type_spec() == types[j]
}

/// Joins batches into one batch with the given schema: column `j` of the
/// result holds column `j` of every batch in turn. Fails when a batch does
/// not fit the schema's types, or when the rows do not fit in memory.
pub fn concat_batches(schema: &Schema, batches: &Vec<RecordBatch>) -> (r: Result<RecordBatch, Error>)
    ensures
        match r {
            Ok(b) => {
                &&& b.wf()
                &&& b.schema.fields@ == schema.fields@
                &&& b.num_rows == total_rows(batches@)
                &&& forall|j: int|
                    0 <= j < b.columns@.len() ==> (#[trigger] b.columns@[j]).cells()
                        == concat_cells(batches@, j)
            },
            Err(e) => e is ArrowError,
        },
        batches_fit(batches@, types_of(schema.fields@)) && total_rows(batches@) <= usize::MAX
            ==> r is Ok,
{
    let mut columns: Vec<ColumnVector> = Vec::new();
    let mut j: usize = 0;
    while j < schema.fields.len()
        invariant
            j <= schema.fields@.len(),
            columns@.len() == j,
            forall|k: int|
                0 <= k < j ==> (#[trigger] columns@[k]).len_spec() == 0
                    && columns@[k].data_type_spec() == schema.fields@[k].data_type,
        decreases schema.fields@.len() - j,
    {
        columns.push(ColumnVector::empty(schema.fields[j].data_type));
        j = j + 1;
    }
    let mut rows: usize = 0;
    let mut i: usize = 0;
    assert(batches@.subrange(0, 0) =~= Seq::<RecordBatch>::empty());
    while i < batches.len()
        invariant
            i <= batches@.len(),
            columns_fit(schema.fields@, columns@, rows as nat),
            rows == total_rows(batches@.subrange(0, i as int)),
            forall|k: int|
                0 <= k < columns@.len() ==> (#[trigger] columns@[k]).cells() == concat_cells(
                    batches@.subrange(0, i as int),
                    k,
                ),
        decreases batches@.len() - i,
    {
        let b = &batches[i];
        let ghost pre = batches@.subrange(0, i as int);
        let ghost next = batches@.subrange(0, i as int + 1);
        assert(next.drop_last() =~= pre);
        proof {
            lemma_total_rows_prefix(batches@, i as int + 1);
        }
        assert(batches_fit(batches@, types_of(schema.fields@)) ==> batches@[i as int].wf());
        if b.columns.len() != columns.len() || b.num_rows > usize::MAX - rows {
            return Err(Error::ArrowError("batches do not fit the schema".to_string()));
        }
        let mut j: usize = 0;
        while j < columns.len()
            invariant
                j <= columns@.len(),
                b.columns@.len() == columns@.len(),
                columns_fit(schema.fields@, columns@, rows as nat),
                i < batches@.len(),
                *b == batches@[i as int],
                forall|k: int|
                    0 <= k < j ==> b.columns@[k].data_type_spec()
                        == schema.fields@[k].data_type && b.columns@[k].len_spec() == b.num_rows,
            decreases columns@.len() - j,
        {
            proof {
                if batches_fit(batches@, types_of(schema.fields@)) {
                    assert(batches@[i as int].wf());
                    assert(types_of(schema.fields@)[j as int] == schema.fields@[j as int].data_type);
                    assert(b.columns@[j as int].len_spec() == b.num_rows);
                }
            }
            if b.columns[j].data_type() != schema.fields[j].data_type || b.columns[j].len()
                != b.num_rows {
                return Err(Error::ArrowError("batches do not fit the schema".to_string()));
            }
            j = j + 1;
        }
        let ghost before = columns@;
        let mut j: usize = 0;
        while j < columns.len()
            invariant
                j <= columns@.len(),
                columns@.len() == before.len(),
                b.columns@.len() == columns@.len(),
                rows + b.num_rows <= usize::MAX,
                columns_fit(schema.fields@, before, rows as nat),
                forall|k: int|
                    0 <= k < columns@.len() ==> b.columns@[k].data_type_spec()
                        == schema.fields@[k].data_type && b.columns@[k].len_spec() == b.num_rows,
                forall|k: int| j <= k < columns@.len() ==> columns@[k] == before[k],
                forall|k: int|
                    0 <= k < j ==> (#[trigger] columns@[k]).cells() == before[k].cells()
                        + b.columns@[k].cells() && columns@[k].len_spec() == rows + b.num_rows
                        && columns@[k].data_type_spec() == schema.fields@[k].data_type,
            decreases columns@.len() - j,
        {
            let mut c = ColumnVector::Null(0);
            std::mem::swap(&mut c, &mut columns[j]);
            assert(c == before[j as int]);
            let ghost c0 = c;
            c.append(&b.columns[j]);
            proof {
                lemma_appended_cells(c0, b.columns@[j as int], c);
            }
            columns.set(j, c);
            j = j + 1;
        }
        rows = rows + b.num_rows;
        i = i + 1;
        assert forall|k: int| 0 <= k < columns@.len() implies (#[trigger] columns@[k]).cells()
            == concat_cells(batches@.subrange(0, i as int), k) by {
            assert(columns@[k].cells() == before[k].cells() + b.columns@[k].cells());
        }
    }
    assert(batches@.subrange(0, batches@.len() as int) =~= batches@);
    Ok(RecordBatch { schema: schema.clone(), columns, num_rows: rows })
}

} // verus!
