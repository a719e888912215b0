use vstd::prelude::*;

use crate::array::ColumnVector;
use crate::batch::RecordBatch;
use crate::datatype::str_eq;
use crate::join::{kept_positions, lemma_positions_below};
use crate::datatype::{DataType, Field, Schema};
use crate::error::Error;
use crate::floats::{
    canonical,
    float_add, float_add_of, float_div, float_div_of, float_from_i64, float_from_int,
    float_from_u64, float_from_u64_of, order_key, total_order_key, FLOAT_MAX, FLOAT_MIN,
    FLOAT_ZERO,
};
use crate::kernels::is_null_scalar;
use crate::logical_expr::AggregateFunc;
use crate::physical_expr::ColumnExpr;
use crate::scalar::Scalar;

verus! {

/// An aggregate function over one column of a batch, accumulating values of
/// `data_type`.
#[derive(Debug, Clone, Copy)]
pub struct AggrOperator {
    pub func: AggregateFunc,
    pub data_type: DataType,
    pub column: ColumnExpr,
}

/// Builds SUM operators.
pub struct Sum;

/// Builds MIN operators.
pub struct Min;

/// Builds MAX operators.
pub struct Max;

/// Builds AVG operators.
pub struct Avg;

/// Builds COUNT operators.
pub struct Count;

impl Sum {
    pub fn new(data_type: DataType, column: ColumnExpr) -> (r: AggrOperator)
        ensures
            r == (AggrOperator { func: AggregateFunc::SUM, data_type, column }),
    {
        AggrOperator { func: AggregateFunc::SUM, data_type, column }
    }
}

impl Min {
    pub fn new(data_type: DataType, column: ColumnExpr) -> (r: AggrOperator)
        ensures
            r == (AggrOperator { func: AggregateFunc::MIN, data_type, column }),
    {
        AggrOperator { func: AggregateFunc::MIN, data_type, column }
    }
}

impl Max {
    pub fn new(data_type: DataType, column: ColumnExpr) -> (r: AggrOperator)
        ensures
            r == (AggrOperator { func: AggregateFunc::MAX, data_type, column }),
    {
        AggrOperator { func: AggregateFunc::MAX, data_type, column }
    }
}

impl Avg {
    pub fn new(data_type: DataType, column: ColumnExpr) -> (r: AggrOperator)
        ensures
            r == (AggrOperator { func: AggregateFunc::AVG, data_type, column }),
    {
        AggrOperator { func: AggregateFunc::AVG, data_type, column }
    }
}

impl Count {
    pub fn new(column: ColumnExpr) -> (r: AggrOperator)
        ensures
            r == (AggrOperator { func: AggregateFunc::COUNT, data_type: DataType::UInt64, column }),
    {
        AggrOperator { func: AggregateFunc::COUNT, data_type: DataType::UInt64, column }
    }
}

impl AggrOperator {
    /// The output field over an input schema: named `FUNC(column)`, of the
    /// function's output type, never null. Fails when the column index is
    /// beyond the schema.
    pub fn to_field(&self, schema: &Schema) -> (r: Result<Field, Error>)
        ensures
            match r {
                Ok(f) => self.column.index < schema.fields@.len() && f.name@
                    == self.func.name_spec() + "("@ + schema.fields@[self.column.index as int].name@
                    + ")"@ && f.data_type == output_type(self.func, self.data_type) && !f.nullable,
                Err(e) => e is NoSuchColumn && self.column.index >= schema.fields@.len(),
            },
    {
        if self.column.index >= schema.fields.len() {
            return Err(Error::NoSuchColumn("aggregate column out of range".to_string()));
        }
        let mut name = self.func.name();
        name.append("(");
        name.append(schema.fields[self.column.index].name.as_str());
        name.append(")");
        let t = match self.func {
            AggregateFunc::COUNT => DataType::UInt64,
            AggregateFunc::AVG => DataType::Float64,
            _ => self.data_type,
        };
        Ok(Field { name, data_type: t, nullable: false })
    }
}

/// The function can accumulate values of type `t`: COUNT any type, the
/// others Int64, UInt64 or Float64.
pub open spec fn accepts(func: AggregateFunc, t: DataType) -> bool {
    func is COUNT || t == DataType::Int64 || t == DataType::UInt64 || t == DataType::Float64
}

/// The type of the function's result.
pub open spec fn output_type(func: AggregateFunc, t: DataType) -> DataType {
    match func {
        AggregateFunc::COUNT => DataType::UInt64,
        AggregateFunc::AVG => DataType::Float64,
        _ => t,
    }
}

/// The starting value: 0 for SUM and AVG, the type's largest value for
/// MIN, its smallest for MAX.
pub open spec fn identity(func: AggregateFunc, t: DataType) -> Scalar {
    match (func, t) {
        (AggregateFunc::MIN, DataType::Int64) => Scalar::Int64(Some(i64::MAX)),
        (AggregateFunc::MIN, DataType::UInt64) => Scalar::UInt64(Some(u64::MAX)),
        (AggregateFunc::MIN, DataType::Float64) => Scalar::Float64(Some(FLOAT_MAX)),
        (AggregateFunc::MAX, DataType::Int64) => Scalar::Int64(Some(i64::MIN)),
        (AggregateFunc::MAX, DataType::UInt64) => Scalar::UInt64(Some(0)),
        (AggregateFunc::MAX, DataType::Float64) => Scalar::Float64(Some(FLOAT_MIN)),
        (AggregateFunc::COUNT, _) => Scalar::UInt64(Some(0)),
        (_, DataType::Int64) => Scalar::Int64(Some(0)),
        (_, DataType::UInt64) => Scalar::UInt64(Some(0)),
        _ => Scalar::Float64(Some(FLOAT_ZERO)),
    }
}

/// Folds one non-null value into the running value; `None` when an
/// integer sum overflows or the value is not of the running value's type.
pub open spec fn combine(func: AggregateFunc, cur: Scalar, v: Scalar) -> Option<Scalar> {
    match (func, cur, v) {
        (AggregateFunc::COUNT, _, _) => Some(cur),
        (AggregateFunc::MIN, Scalar::Int64(Some(a)), Scalar::Int64(Some(b))) => Some(
            Scalar::Int64(Some(if b < a { b } else { a })),
        ),
        (AggregateFunc::MIN, Scalar::UInt64(Some(a)), Scalar::UInt64(Some(b))) => Some(
            Scalar::UInt64(Some(if b < a { b } else { a })),
        ),
        (AggregateFunc::MIN, Scalar::Float64(Some(a)), Scalar::Float64(Some(b))) => Some(
            Scalar::Float64(
                Some(if total_order_key(b) < total_order_key(a) { b } else { a }),
            ),
        ),
        (AggregateFunc::MAX, Scalar::Int64(Some(a)), Scalar::Int64(Some(b))) => Some(
            Scalar::Int64(Some(if b > a { b } else { a })),
        ),
        (AggregateFunc::MAX, Scalar::UInt64(Some(a)), Scalar::UInt64(Some(b))) => Some(
            Scalar::UInt64(Some(if b > a { b } else { a })),
        ),
        (AggregateFunc::MAX, Scalar::Float64(Some(a)), Scalar::Float64(Some(b))) => Some(
            Scalar::Float64(
                Some(if total_order_key(b) > total_order_key(a) { b } else { a }),
            ),
        ),
        (AggregateFunc::MIN, _, _) => None,
        (AggregateFunc::MAX, _, _) => None,
        (_, Scalar::Int64(Some(a)), Scalar::Int64(Some(b))) => match a.checked_add(b) {
            Some(s) => Some(Scalar::Int64(Some(s))),
            None => None,
        },
        (_, Scalar::UInt64(Some(a)), Scalar::UInt64(Some(b))) => match a.checked_add(b) {
            Some(s) => Some(Scalar::UInt64(Some(s))),
            None => None,
        },
        (_, Scalar::Float64(Some(a)), Scalar::Float64(Some(b))) => Some(
            Scalar::Float64(Some(canonical(float_add_of(a, b)))),
        ),
        _ => None,
    }
}

/// The state after folding `vals` into the identity: the running value and
/// the number of non-null values; `None` where a step fails.
pub open spec fn fold_values(func: AggregateFunc, t: DataType, vals: Seq<Scalar>) -> Option<
    (Scalar, nat),
>
    decreases vals.len(),
{
    if vals.len() == 0 {
        Some((identity(func, t), 0))
    } else {
        match fold_values(func, t, vals.drop_last()) {
            None => None,
            Some((cur, n)) => if is_null_scalar(vals.last()) {
                Some((cur, n))
            } else if n >= u64::MAX {
                None
            } else {
                match combine(func, cur, vals.last()) {
                    Some(next) => Some((next, n + 1)),
                    None => None,
                }
            },
        }
    }
}

/// A number as a float.
pub open spec fn as_float(s: Scalar) -> u64 {
    match s {
        Scalar::Int64(Some(x)) => float_from_i64(x),
        Scalar::UInt64(Some(x)) => float_from_u64_of(x),
        Scalar::Float64(Some(x)) => x,
        _ => FLOAT_ZERO,
    }
}

/// The value that an aggregate emits from its state: the running value,
/// the count, or the sum divided by the count (null over no values).
pub open spec fn emitted(func: AggregateFunc, state: (Scalar, nat)) -> Scalar {
    match func {
        AggregateFunc::COUNT => Scalar::UInt64(Some(state.1 as u64)),
        AggregateFunc::AVG => if state.1 == 0 {
            Scalar::Float64(None)
        } else {
            Scalar::Float64(
                Some(canonical(float_div_of(as_float(state.0), float_from_u64_of(state.1 as u64)))),
            )
        },
        _ => state.0,
    }
}

/// The aggregate of `vals`, or `None` where folding fails.
pub open spec fn aggregate_of(func: AggregateFunc, t: DataType, vals: Seq<Scalar>) -> Option<Scalar> {
    match fold_values(func, t, vals) {
        Some(state) => Some(emitted(func, state)),
        None => None,
    }
}

/// The running state of one aggregate over one group of rows.
pub struct Accumulator {
    pub func: AggregateFunc,
    pub data_type: DataType,
    pub value: Scalar,
    pub count: u64,
}

impl Accumulator {
    pub open spec fn state(&self) -> (Scalar, nat) {
        (self.value, self.count as nat)
    }

    /// An accumulator at the identity.
    pub fn new(func: AggregateFunc, t: DataType) -> (r: Accumulator)
        ensures
            r.func == func,
            r.data_type == t,
            r.state() == (identity(func, t), 0nat),
    {
        let value = match (func, t) {
            (AggregateFunc::MIN, DataType::Int64) => Scalar::Int64(Some(i64::MAX)),
            (AggregateFunc::MIN, DataType::UInt64) => Scalar::UInt64(Some(u64::MAX)),
            (AggregateFunc::MIN, DataType::Float64) => Scalar::Float64(Some(FLOAT_MAX)),
            (AggregateFunc::MAX, DataType::Int64) => Scalar::Int64(Some(i64::MIN)),
            (AggregateFunc::MAX, DataType::UInt64) => Scalar::UInt64(Some(0)),
            (AggregateFunc::MAX, DataType::Float64) => Scalar::Float64(Some(FLOAT_MIN)),
            (AggregateFunc::COUNT, _) => Scalar::UInt64(Some(0)),
            (_, DataType::Int64) => Scalar::Int64(Some(0)),
            (_, DataType::UInt64) => Scalar::UInt64(Some(0)),
            _ => Scalar::Float64(Some(FLOAT_ZERO)),
        };
        Accumulator { func, data_type: t, value, count: 0 }
    }

    /// Resets the accumulator to the identity.
    pub fn clear(&mut self)
        ensures
            final(self).func == old(self).func,
            final(self).data_type == old(self).data_type,
            final(self).state() == (identity(old(self).func, old(self).data_type), 0nat),
    {
        *self = Accumulator::new(self.func, self.data_type);
    }

    /// Folds one value in; a null leaves the state as it is.
    pub fn update(&mut self, v: &Scalar) -> (r: Result<(), Error>)
        ensures
            final(self).func == old(self).func,
            final(self).data_type == old(self).data_type,
            is_null_scalar(*v) ==> r is Ok && final(self).state() == old(self).state(),
            !is_null_scalar(*v) ==> match (r, combine(old(self).func, old(self).value, *v)) {
                (Ok(_), Some(next)) => old(self).count < u64::MAX && final(self).state() == (
                    next,
                    (old(self).count + 1) as nat,
                ),
                (Err(e), None) => e is ArrowError,
                (Err(e), Some(_)) => e is ArrowError && old(self).count == u64::MAX,
                _ => false,
            },
    {
        if is_null(v) {
            return Ok(());
        }
        if self.count == u64::MAX {
            return Err(Error::ArrowError("too many values to aggregate".to_string()));
        }
        let next = match (self.func, &self.value, v) {
            (AggregateFunc::COUNT, _, _) => Some(self.value.clone()),
            (AggregateFunc::MIN, Scalar::Int64(Some(a)), Scalar::Int64(Some(b))) => Some(
                Scalar::Int64(Some(if *b < *a { *b } else { *a })),
            ),
            (AggregateFunc::MIN, Scalar::UInt64(Some(a)), Scalar::UInt64(Some(b))) => Some(
                Scalar::UInt64(Some(if *b < *a { *b } else { *a })),
            ),
            (AggregateFunc::MIN, Scalar::Float64(Some(a)), Scalar::Float64(Some(b))) => Some(
                Scalar::Float64(Some(if order_key(*b) < order_key(*a) { *b } else { *a })),
            ),
            (AggregateFunc::MAX, Scalar::Int64(Some(a)), Scalar::Int64(Some(b))) => Some(
                Scalar::Int64(Some(if *b > *a { *b } else { *a })),
            ),
            (AggregateFunc::MAX, Scalar::UInt64(Some(a)), Scalar::UInt64(Some(b))) => Some(
                Scalar::UInt64(Some(if *b > *a { *b } else { *a })),
            ),
            (AggregateFunc::MAX, Scalar::Float64(Some(a)), Scalar::Float64(Some(b))) => Some(
                Scalar::Float64(Some(if order_key(*b) > order_key(*a) { *b } else { *a })),
            ),
            (AggregateFunc::MIN, _, _) => None,
            (AggregateFunc::MAX, _, _) => None,
            (_, Scalar::Int64(Some(a)), Scalar::Int64(Some(b))) => match a.checked_add(*b) {
                Some(s) => Some(Scalar::Int64(Some(s))),
                None => None,
            },
            (_, Scalar::UInt64(Some(a)), Scalar::UInt64(Some(b))) => match a.checked_add(*b) {
                Some(s) => Some(Scalar::UInt64(Some(s))),
                None => None,
            },
            (_, Scalar::Float64(Some(a)), Scalar::Float64(Some(b))) => Some(
                Scalar::Float64(Some(float_add(*a, *b))),
            ),
            _ => None,
        };
        match next {
            Some(n) => {
                self.value = n;
                self.count = self.count + 1;
                Ok(())
            },
            None => Err(Error::ArrowError("aggregate overflow or value of another type".to_string())),
        }
    }

    /// The value that the aggregate emits now.
    pub fn evaluate(&self) -> (r: Scalar)
        ensures
            r == emitted(self.func, self.state()),
    {
        match self.func {
            AggregateFunc::COUNT => Scalar::UInt64(Some(self.count)),
            AggregateFunc::AVG => if self.count == 0 {
                Scalar::Float64(None)
            } else {
                let sum = match &self.value {
                    Scalar::Int64(Some(x)) => float_from_int(*x),
                    Scalar::UInt64(Some(x)) => float_from_u64(*x),
                    Scalar::Float64(Some(x)) => *x,
                    _ => FLOAT_ZERO,
                };
                Scalar::Float64(Some(float_div(sum, float_from_u64(self.count))))
            },
            _ => self.value.clone(),
        }
    }
}

/// The value is a null.
pub fn is_null(v: &Scalar) -> (r: bool)
    ensures
        r == is_null_scalar(*v),
{
    match v {
        Scalar::Null => true,
        Scalar::Boolean(x) => x.is_none(),
        Scalar::Float64(x) => x.is_none(),
        Scalar::Int64(x) => x.is_none(),
        Scalar::UInt64(x) => x.is_none(),
        Scalar::Utf8(x) => x.is_none(),
    }
}

/// The operator can run over `b`: its column exists and holds values the
/// function accepts, of the operator's type unless the function is COUNT.
pub open spec fn op_valid(op: AggrOperator, b: RecordBatch) -> bool {
    &&& op.column.index < b.columns@.len()
    &&& accepts(op.func, op.data_type)
    &&& (op.func is COUNT || b.columns@[op.column.index as int].data_type_spec() == op.data_type)
}

/// The values of column `c` at the rows `rows`.
pub open spec fn values_at(c: ColumnVector, rows: Seq<usize>) -> Seq<Scalar> {
    Seq::new(rows.len(), |k: int| c.cell(rows[k] as int))
}

/// The aggregate of the operator's column over the rows `rows` of `b`.
pub open spec fn op_result(op: AggrOperator, b: RecordBatch, rows: Seq<usize>) -> Option<Scalar> {
    aggregate_of(op.func, op.data_type, values_at(b.columns@[op.column.index as int], rows))
}

/// Once a prefix fails to fold, so does the whole sequence.
pub proof fn lemma_fold_prefix_fails(func: AggregateFunc, t: DataType, vals: Seq<Scalar>, k: int)
    requires
        0 <= k <= vals.len(),
        fold_values(func, t, vals.subrange(0, k)) is None,
    ensures
        fold_values(func, t, vals) is None,
    decreases vals.len() - k,
{
    if k < vals.len() {
        assert(vals.subrange(0, k + 1).drop_last() =~= vals.subrange(0, k));
        lemma_fold_prefix_fails(func, t, vals, k + 1);
    } else {
        assert(vals.subrange(0, k) =~= vals);
    }
}

/// The running value keeps the identity's type.
pub proof fn lemma_fold_type(func: AggregateFunc, t: DataType, vals: Seq<Scalar>)
    ensures
        fold_values(func, t, vals) matches Some((v, _)) ==> v.data_type_spec() == identity(
            func,
            t,
        ).data_type_spec(),
    decreases vals.len(),
{
    if vals.len() > 0 {
        lemma_fold_type(func, t, vals.drop_last());
    }
}

/// An aggregate's result has the function's output type.
pub proof fn lemma_result_type(func: AggregateFunc, t: DataType, vals: Seq<Scalar>)
    requires
        accepts(func, t),
    ensures
        aggregate_of(func, t, vals) matches Some(v) ==> v.data_type_spec() == output_type(func, t),
{
    lemma_fold_type(func, t, vals);
}

/// Aggregates the operator's column over the rows `rows` of `batch`.
pub fn fold_rows(op: &AggrOperator, batch: &RecordBatch, rows: &Vec<usize>) -> (r: Result<Scalar, Error>)
    requires
        batch.wf(),
        forall|k: int| 0 <= k < rows@.len() ==> (#[trigger] rows@[k]) < batch.num_rows,
    ensures
        match r {
            Ok(v) => op_valid(*op, *batch) && op_result(*op, *batch, rows@) == Some(v),
            Err(e) => if !op_valid(*op, *batch) {
                e is IntervalError || e is NoSuchColumn
            } else {
                e is ArrowError && op_result(*op, *batch, rows@) is None
            },
        },
{
    let idx = op.column.index;
    if idx >= batch.columns.len() {
        return Err(Error::NoSuchColumn("aggregate column out of range".to_string()));
    }
    let col = &batch.columns[idx];
    let t = op.data_type;
    let supported = t == DataType::Int64 || t == DataType::UInt64 || t == DataType::Float64;
    if op.func != AggregateFunc::COUNT && (!supported || col.data_type() != t) {
        return Err(Error::IntervalError("aggregate over a column of an unsupported type".to_string()));
    }
    let ghost vals = values_at(*col, rows@);
    let mut acc = Accumulator::new(op.func, t);
    let mut k: usize = 0;
    assert(vals.subrange(0, 0) =~= Seq::<Scalar>::empty());
    while k < rows.len()
        invariant
            batch.wf(),
            op_valid(*op, *batch),
            forall|m: int| 0 <= m < rows@.len() ==> (#[trigger] rows@[m]) < batch.num_rows,
            *col == batch.columns@[idx as int],
            idx == op.column.index,
            t == op.data_type,
            idx < batch.columns@.len(),
            vals == values_at(*col, rows@),
            acc.func == op.func,
            acc.data_type == t,
            k <= rows@.len(),
            fold_values(op.func, t, vals.subrange(0, k as int)) == Some(acc.state()),
        decreases rows@.len() - k,
    {
        assert(col.len_spec() == batch.num_rows);
        let v = col.get(rows[k]);
        let res = acc.update(&v);
        assert(vals.subrange(0, k as int + 1).drop_last() =~= vals.subrange(0, k as int));
        assert(vals.subrange(0, k as int + 1).last() == v);
        match res {
            Ok(()) => {},
            Err(e) => {
                proof {
                    let pre = vals.subrange(0, k as int + 1);
                    assert(pre.drop_last() =~= vals.subrange(0, k as int));
                    assert(!is_null_scalar(pre.last()));
                    assert(fold_values(op.func, t, pre) is None);
                    lemma_fold_prefix_fails(op.func, t, vals, k as int + 1);
                }
                return Err(e);
            },
        }
        k = k + 1;
    }
    assert(vals.subrange(0, rows@.len() as int) =~= vals);
    Ok(acc.evaluate())
}

/// Two group keys are equal and not null.
pub open spec fn same_key(a: Scalar, b: Scalar) -> bool {
    match (a, b) {
        (Scalar::Boolean(Some(x)), Scalar::Boolean(Some(y))) => x == y,
        (Scalar::Int64(Some(x)), Scalar::Int64(Some(y))) => x == y,
        (Scalar::UInt64(Some(x)), Scalar::UInt64(Some(y))) => x == y,
        (Scalar::Utf8(Some(x)), Scalar::Utf8(Some(y))) => x@ == y@,
        _ => false,
    }
}

/// Rows can be grouped by keys of type `t`.
pub open spec fn groupable(t: DataType) -> bool {
    t == DataType::Int64 || t == DataType::UInt64 || t == DataType::Boolean || t == DataType::Utf8
}

/// Row `i` holds a non-null key that no earlier row holds.
pub open spec fn is_first(keys: ColumnVector, i: int) -> bool {
    &&& same_key(keys.cell(i), keys.cell(i))
    &&& forall|j: int| 0 <= j < i ==> !same_key(#[trigger] keys.cell(j), keys.cell(i))
}

/// The first row of each group, in order of first appearance.
pub open spec fn group_firsts(keys: ColumnVector) -> Seq<usize> {
    kept_positions(keys.len_spec(), |i: int| is_first(keys, i))
}

/// The rows whose key equals the key of row `g`.
pub open spec fn group_members(keys: ColumnVector, g: int) -> Seq<usize> {
    kept_positions(keys.len_spec(), |i: int| same_key(keys.cell(i), keys.cell(g)))
}

/// Every row of a batch of `n` rows.
pub open spec fn all_rows(n: nat) -> Seq<usize> {
    Seq::new(n, |i: int| i as usize)
}

/// The schema has one field per operator, of the operator's output type,
/// after `lead`.
pub open spec fn fits_outputs(fields: Seq<Field>, lead: Seq<DataType>, ops: Seq<AggrOperator>) -> bool {
    &&& fields.len() == lead.len() + ops.len()
    &&& forall|k: int| 0 <= k < lead.len() ==> fields[k].data_type == lead[k]
    &&& forall|m: int|
        0 <= m < ops.len() ==> fields[lead.len() + m].data_type == output_type(
            (#[trigger] ops[m]).func,
            ops[m].data_type,
        )
}

/// Every operator runs over `b` and aggregates each of `groups` without
/// failing.
pub open spec fn all_succeed(ops: Seq<AggrOperator>, b: RecordBatch, groups: Seq<Seq<usize>>) -> bool {
    forall|m: int, g: int|
        0 <= m < ops.len() && 0 <= g < groups.len() ==> op_valid(ops[m], b) && (#[trigger] op_result(
            ops[m],
            b,
            groups[g],
        )) is Some
}

fn same_key_at(keys: &ColumnVector, i: usize, j: usize) -> (r: bool)
    requires
        i < keys.len_spec(),
        j < keys.len_spec(),
    ensures
        r == same_key(keys.cell(i as int), keys.cell(j as int)),
{
    match keys {
        ColumnVector::Boolean(v) => match (v[i], v[j]) {
            (Some(x), Some(y)) => x == y,
            _ => false,
        },
        ColumnVector::Int64(v) => match (v[i], v[j]) {
            (Some(x), Some(y)) => x == y,
            _ => false,
        },
        ColumnVector::UInt64(v) => match (v[i], v[j]) {
            (Some(x), Some(y)) => x == y,
            _ => false,
        },
        ColumnVector::Utf8(v) => match (&v[i], &v[j]) {
            (Some(x), Some(y)) => str_eq(x.as_str(), y.as_str()),
            _ => false,
        },
        _ => false,
    }
}

/// The first row of each group, in order of first appearance.
pub fn first_rows(keys: &ColumnVector) -> (r: Vec<usize>)
    ensures
        r@ == group_firsts(*keys),
{
    let n = keys.len();
    let mut out: Vec<usize> = Vec::new();
    let mut i: usize = 0;
    while i < n
        invariant
            n == keys.len_spec(),
            i <= n,
            out@ == kept_positions(i as nat, |k: int| is_first(*keys, k)),
        decreases n - i,
    {
        let mut first = same_key_at(keys, i, i);
        let mut j: usize = 0;
        while j < i && first
            invariant
                n == keys.len_spec(),
                i < n,
                j <= i,
                first ==> same_key(keys.cell(i as int), keys.cell(i as int)),
                first ==> forall|m: int| 0 <= m < j ==> !same_key(#[trigger] keys.cell(m), keys.cell(i as int)),
                !first ==> !is_first(*keys, i as int),
            decreases i - j,
        {
            if same_key_at(keys, j, i) {
                first = false;
            }
            j = j + 1;
        }
        if first {
            out.push(i);
        }
        i = i + 1;
    }
    out
}

/// The rows whose key equals the key of row `g`, in order.
pub fn member_rows(keys: &ColumnVector, g: usize) -> (r: Vec<usize>)
    requires
        g < keys.len_spec(),
    ensures
        r@ == group_members(*keys, g as int),
{
    let n = keys.len();
    let mut out: Vec<usize> = Vec::new();
    let mut i: usize = 0;
    while i < n
        invariant
            n == keys.len_spec(),
            g < n,
            i <= n,
            out@ == kept_positions(i as nat, |k: int| same_key(keys.cell(k), keys.cell(g as int))),
        decreases n - i,
    {
        if same_key_at(keys, i, g) {
            out.push(i);
        }
        i = i + 1;
    }
    out
}

/// The indices `0..n`.
pub fn every_row(n: usize) -> (r: Vec<usize>)
    ensures
        r@ == all_rows(n as nat),
{
    let mut out: Vec<usize> = Vec::new();
    let mut i: usize = 0;
    while i < n
        invariant
            i <= n,
            out@ == all_rows(i as nat),
        decreases n - i,
    {
        out.push(i);
        i = i + 1;
        assert(out@ =~= all_rows(i as nat));
    }
    out
}

/// One column per operator: the aggregate of each group of rows.
fn aggregate_columns(batch: &RecordBatch, ops: &Vec<AggrOperator>, groups: &Vec<Vec<usize>>) -> (r: Result<
    Vec<ColumnVector>,
    Error,
>)
    requires
        batch.wf(),
        forall|g: int, k: int|
            0 <= g < groups@.len() && 0 <= k < groups@[g]@.len() ==> (#[trigger] groups@[g]@[k])
                < batch.num_rows,
    ensures
        match r {
            Ok(cols) => cols@.len() == ops@.len() && all_succeed(
                ops@,
                *batch,
                Seq::new(groups@.len(), |g: int| groups@[g]@),
            ) && forall|m: int|
                0 <= m < ops@.len() ==> (#[trigger] cols@[m]).len_spec() == groups@.len()
                    && cols@[m].data_type_spec() == output_type(ops@[m].func, ops@[m].data_type)
                    && forall|g: int|
                    0 <= g < groups@.len() ==> Some(cols@[m].cells()[g]) == op_result(
                        ops@[m],
                        *batch,
                        groups@[g]@,
                    ),
            Err(_) => !all_succeed(ops@, *batch, Seq::new(groups@.len(), |g: int| groups@[g]@)),
        },
{
    let ghost gs = Seq::new(groups@.len(), |g: int| groups@[g]@);
    let mut cols: Vec<ColumnVector> = Vec::new();
    let mut m: usize = 0;
    while m < ops.len()
        invariant
            batch.wf(),
            gs == Seq::new(groups@.len(), |g: int| groups@[g]@),
            forall|g: int, k: int|
                0 <= g < groups@.len() && 0 <= k < groups@[g]@.len() ==> (#[trigger] groups@[g]@[k])
                    < batch.num_rows,
            m <= ops@.len(),
            cols@.len() == m,
            forall|q: int, g: int|
                0 <= q < m && 0 <= g < gs.len() ==> op_valid(ops@[q], *batch) && (#[trigger] op_result(
                    ops@[q],
                    *batch,
                    gs[g],
                )) is Some,
            forall|q: int|
                0 <= q < m ==> (#[trigger] cols@[q]).len_spec() == groups@.len()
                    && cols@[q].data_type_spec() == output_type(ops@[q].func, ops@[q].data_type)
                    && forall|g: int|
                    0 <= g < groups@.len() ==> Some(cols@[q].cells()[g]) == op_result(
                        ops@[q],
                        *batch,
                        groups@[g]@,
                    ),
        decreases ops@.len() - m,
    {
        let op = &ops[m];
        let mut col = ColumnVector::empty(if op.func == AggregateFunc::COUNT {
            DataType::UInt64
        } else if op.func == AggregateFunc::AVG {
            DataType::Float64
        } else {
            op.data_type
        });
        let mut g: usize = 0;
        while g < groups.len()
            invariant
                batch.wf(),
                forall|g2: int, k: int|
                    0 <= g2 < groups@.len() && 0 <= k < groups@[g2]@.len() ==> (#[trigger] groups@[g2]@[k])
                        < batch.num_rows,
                m < ops@.len(),
                *op == ops@[m as int],
                gs == Seq::new(groups@.len(), |g: int| groups@[g]@),
                g <= groups@.len(),
                col.len_spec() == g,
                col.data_type_spec() == output_type(op.func, op.data_type),
                forall|h: int| 0 <= h < g ==> op_valid(*op, *batch) && (#[trigger] op_result(
                    *op,
                    *batch,
                    groups@[h]@,
                )) is Some,
                forall|h: int|
                    0 <= h < g ==> Some(#[trigger] col.cells()[h]) == op_result(*op, *batch, groups@[h]@),
            decreases groups@.len() - g,
        {
            let rows = &groups[g];
            let v = match fold_rows(op, batch, rows) {
                Ok(v) => v,
                Err(e) => {
                    assert(gs[g as int] == groups@[g as int]@);
                    assert(!(op_valid(ops@[m as int], *batch) && op_result(ops@[m as int], *batch, gs[g as int]) is Some));
                    return Err(e);
                },
            };
            proof {
                lemma_result_type(op.func, op.data_type, values_at(batch.columns@[op.column.index as int], rows@));
            }
            let ghost before = col;
            col = col.push_scalar(v);
            assert forall|h: int| 0 <= h < g + 1 implies Some(#[trigger] col.cells()[h]) == op_result(
                *op,
                *batch,
                groups@[h]@,
            ) by {
                if h < g {
                    assert(col.cells()[h] == before.cells()[h]);
                }
            }
            g = g + 1;
        }
        cols.push(col);
        proof {
            assert forall|q: int, h: int|
                0 <= q < m + 1 && 0 <= h < gs.len() implies op_valid(ops@[q], *batch) && (#[trigger] op_result(
                ops@[q],
                *batch,
                gs[h],
            )) is Some by {
                if q == m {
                    assert(gs[h] == groups@[h]@);
                }
            }
        }
        m = m + 1;
    }
    Ok(cols)
}

/// `out` is the grouped aggregation of `b` by the key column `keys`: one
/// row per distinct non-null key, in order of first appearance, holding
/// the key and then each operator's aggregate over the rows with that key.
pub open spec fn grouped(keys: ColumnVector, b: RecordBatch, ops: Seq<AggrOperator>, out: RecordBatch) -> bool {
    let firsts = group_firsts(keys);
    &&& out.wf()
    &&& out.num_rows == firsts.len()
    &&& out.columns@.len() == ops.len() + 1
    &&& keys.taken_to(firsts, out.columns@[0])
    &&& forall|m: int, g: int|
        0 <= m < ops.len() && 0 <= g < firsts.len() ==> Some(
            (#[trigger] out.columns@[m + 1].cells()[g]),
        ) == op_result(ops[m], b, group_members(keys, firsts[g] as int))
}

/// Aggregates `batch` grouped by the key column `keys`. Fails when keys are
/// not Int64, UInt64, Boolean or Utf8, when an operator cannot run or
/// overflows, or when the result does not fit `schema`.
pub fn aggregate_grouped(batch: &RecordBatch, keys: &ColumnVector, ops: &Vec<AggrOperator>, schema: &Schema) -> (r:
    Result<RecordBatch, Error>)
    requires
        batch.wf(),
        keys.len_spec() == batch.num_rows,
    ensures
        match r {
            Ok(out) => groupable(keys.data_type_spec()) && grouped(*keys, *batch, ops@, out)
                && out.schema.fields@ == schema.fields@,
            Err(e) => !groupable(keys.data_type_spec()) && e is IntervalError || !all_succeed(
                ops@,
                *batch,
                Seq::new(
                    group_firsts(*keys).len(),
                    |g: int| group_members(*keys, group_firsts(*keys)[g] as int),
                ),
            ) || !fits_outputs(schema.fields@, seq![keys.data_type_spec()], ops@),
        },
{
    let kt = keys.data_type();
    if !(kt == DataType::Int64 || kt == DataType::UInt64 || kt == DataType::Boolean || kt
        == DataType::Utf8) {
        return Err(Error::IntervalError("unsupported group key type".to_string()));
    }
    let firsts = first_rows(keys);
    proof {
        lemma_positions_below(keys.len_spec(), |i: int| is_first(*keys, i));
    }
    let mut groups: Vec<Vec<usize>> = Vec::new();
    let mut g: usize = 0;
    while g < firsts.len()
        invariant
            firsts@ == group_firsts(*keys),
            forall|i: int| 0 <= i < firsts@.len() ==> (#[trigger] firsts@[i]) < keys.len_spec(),
            keys.len_spec() == batch.num_rows,
            g <= firsts@.len(),
            groups@.len() == g,
            forall|h: int| 0 <= h < g ==> (#[trigger] groups@[h])@ == group_members(*keys, firsts@[h] as int),
            forall|h: int, k: int|
                0 <= h < g && 0 <= k < groups@[h]@.len() ==> (#[trigger] groups@[h]@[k])
                    < batch.num_rows,
        decreases firsts@.len() - g,
    {
        let rows = member_rows(keys, firsts[g]);
        proof {
            lemma_positions_below(
                keys.len_spec(),
                |i: int| same_key(keys.cell(i), keys.cell(firsts@[g as int] as int)),
            );
        }
        groups.push(rows);
        g = g + 1;
    }
    let ghost gs = Seq::new(groups@.len(), |h: int| groups@[h]@);
    assert(gs =~= Seq::new(
        group_firsts(*keys).len(),
        |h: int| group_members(*keys, group_firsts(*keys)[h] as int),
    ));
    let aggs = match aggregate_columns(batch, ops, &groups) {
        Ok(c) => c,
        Err(e) => {
            return Err(e);
        },
    };
    let mut columns: Vec<ColumnVector> = Vec::new();
    let key_col = keys.take(&firsts);
    let ghost kc = key_col;
    let ghost agg_cols = aggs@;
    columns.push(key_col);
    let mut aggs = aggs;
    columns.append(&mut aggs);
    let ghost cols = columns@;
    assert(cols =~= seq![kc] + agg_cols);
    match RecordBatch::try_new(schema.clone(), columns, firsts.len()) {
        Ok(out) => {
            assert forall|m: int, h: int|
                0 <= m < ops@.len() && 0 <= h < firsts@.len() implies Some(
                (#[trigger] out.columns@[m + 1].cells()[h]),
            ) == op_result(ops@[m], *batch, group_members(*keys, firsts@[h] as int)) by {
                assert(out.columns@[m + 1] == cols[m + 1]);
            }
            Ok(out)
        },
        Err(e) => {
            proof {
                if fits_outputs(schema.fields@, seq![keys.data_type_spec()], ops@) {
                    assert forall|k: int| 0 <= k < cols.len() implies (#[trigger] cols[k]).len_spec()
                        == firsts@.len() && cols[k].data_type_spec()
                        == schema.fields@[k].data_type by {
                        if k > 0 {
                            assert(cols[k] == agg_cols[k - 1]);
                            assert(schema.fields@[1 + (k - 1)].data_type == output_type(
                                ops@[k - 1].func,
                                ops@[k - 1].data_type,
                            ));
                        } else {
                            assert(schema.fields@[0].data_type == seq![keys.data_type_spec()][0]);
                        }
                    }
                }
            }
            Err(e)
        },
    }
}

/// `out` is the aggregation of every row of `b`: one row holding each
/// operator's aggregate.
pub open spec fn aggregated(b: RecordBatch, ops: Seq<AggrOperator>, out: RecordBatch) -> bool {
    &&& out.wf()
    &&& out.num_rows == 1
    &&& out.columns@.len() == ops.len()
    &&& forall|m: int|
        0 <= m < ops.len() ==> Some((#[trigger] out.columns@[m]).cells()[0]) == op_result(
            ops[m],
            b,
            all_rows(b.num_rows as nat),
        )
}

/// Aggregates every row of `batch` into one row. Fails when an operator
/// cannot run or overflows, or when the result does not fit `schema`.
pub fn aggregate_all(batch: &RecordBatch, ops: &Vec<AggrOperator>, schema: &Schema) -> (r: Result<
    RecordBatch,
    Error,
>)
    requires
        batch.wf(),
    ensures
        match r {
            Ok(out) => aggregated(*batch, ops@, out) && out.schema.fields@ == schema.fields@,
            Err(e) => !all_succeed(ops@, *batch, seq![all_rows(batch.num_rows as nat)])
                || !fits_outputs(schema.fields@, Seq::empty(), ops@),
        },
{
    let mut groups: Vec<Vec<usize>> = Vec::new();
    groups.push(every_row(batch.num_rows));
    let ghost gs = Seq::new(groups@.len(), |h: int| groups@[h]@);
    assert(gs =~= seq![all_rows(batch.num_rows as nat)]);
    let columns = match aggregate_columns(batch, ops, &groups) {
        Ok(c) => c,
        Err(e) => {
            return Err(e);
        },
    };
    let ghost cols = columns@;
    match RecordBatch::try_new(schema.clone(), columns, 1) {
        Ok(out) => Ok(out),
        Err(e) => {
            proof {
                if fits_outputs(schema.fields@, Seq::empty(), ops@) {
                    assert forall|k: int| 0 <= k < cols.len() implies (#[trigger] cols[k]).len_spec()
                        == 1 && cols[k].data_type_spec() == schema.fields@[k].data_type by {
                        assert(schema.fields@[0 + k].data_type == output_type(ops@[k].func, ops@[k].data_type));
                    }
                }
            }
            Err(e)
        },
    }
}

/// The number of non-null values.
pub open spec fn non_null_count(vals: Seq<Scalar>) -> nat
    decreases vals.len(),
{
    if vals.len() == 0 {
        0
    } else {
        non_null_count(vals.drop_last()) + if is_null_scalar(vals.last()) {
            0nat
        } else {
            1nat
        }
    }
}

/// The sum of Int64 values, as a mathematical integer.
pub open spec fn int_total(vals: Seq<Scalar>) -> int
    decreases vals.len(),
{
    if vals.len() == 0 {
        0
    } else {
        int_total(vals.drop_last()) + match vals.last() {
            Scalar::Int64(Some(x)) => x as int,
            _ => 0,
        }
    }
}

/// Every value is a non-null Int64.
pub open spec fn all_ints(vals: Seq<Scalar>) -> bool {
    forall|i: int| 0 <= i < vals.len() ==> (#[trigger] vals[i]) is Int64 && vals[i]->Int64_0 is Some
}

/// COUNT over any values is the number of non-null values among them.
pub proof fn law_count_is_non_null(t: DataType, vals: Seq<Scalar>)
    requires
        vals.len() < u64::MAX,
    ensures
        aggregate_of(AggregateFunc::COUNT, t, vals) == Some(
            Scalar::UInt64(Some(non_null_count(vals) as u64)),
        ),
    decreases vals.len(),
{
    lemma_count_fold(t, vals);
}

proof fn lemma_count_fold(t: DataType, vals: Seq<Scalar>)
    requires
        vals.len() < u64::MAX,
    ensures
        fold_values(AggregateFunc::COUNT, t, vals) == Some(
            (Scalar::UInt64(Some(0)), non_null_count(vals)),
        ),
        non_null_count(vals) <= vals.len(),
    decreases vals.len(),
{
    if vals.len() > 0 {
        lemma_count_fold(t, vals.drop_last());
    }
}

/// On non-null Int64 values SUM and AVG fold alike.
proof fn lemma_sum_avg_fold(vals: Seq<Scalar>)
    ensures
        fold_values(AggregateFunc::AVG, DataType::Int64, vals) == fold_values(
            AggregateFunc::SUM,
            DataType::Int64,
            vals,
        ),
    decreases vals.len(),
{
    if vals.len() > 0 {
        lemma_sum_avg_fold(vals.drop_last());
    }
}

/// Folding SUM over non-null Int64 values, where it succeeds, gives their
/// total and their number.
proof fn lemma_sum_fold(vals: Seq<Scalar>)
    requires
        all_ints(vals),
    ensures
        fold_values(AggregateFunc::SUM, DataType::Int64, vals) matches Some((s, n)) ==> (s
            is Int64 && s->Int64_0 is Some && s->Int64_0->Some_0 as int == int_total(vals) && n
            == vals.len()),
    decreases vals.len(),
{
    if vals.len() > 0 {
        assert(all_ints(vals.drop_last())) by {
            assert forall|i: int| 0 <= i < vals.drop_last().len() implies (#[trigger] vals.drop_last()[i])
                is Int64 && vals.drop_last()[i]->Int64_0 is Some by {
                assert(vals.drop_last()[i] == vals[i]);
            }
        }
        lemma_sum_fold(vals.drop_last());
        assert(vals[vals.len() - 1] == vals.last());
    }
}

/// Folding MIN (MAX) over non-null Int64 values gives a value at most (at
/// least) every one of them, which is one of them when there are any.
proof fn lemma_min_max_fold(func: AggregateFunc, vals: Seq<Scalar>)
    requires
        all_ints(vals),
        func is MIN || func is MAX,
        vals.len() < u64::MAX,
    ensures
        fold_values(func, DataType::Int64, vals) matches Some((m, n)) && m is Int64
            && m->Int64_0 is Some && n == vals.len() && forall|i: int|
            0 <= i < vals.len() ==> if func is MIN {
                m->Int64_0->Some_0 <= (#[trigger] vals[i])->Int64_0->Some_0
            } else {
                m->Int64_0->Some_0 >= vals[i]->Int64_0->Some_0
            },
    decreases vals.len(),
{
    if vals.len() > 0 {
        let pre = vals.drop_last();
        assert(all_ints(pre)) by {
            assert forall|i: int| 0 <= i < pre.len() implies (#[trigger] pre[i]) is Int64
                && pre[i]->Int64_0 is Some by {
                assert(pre[i] == vals[i]);
            }
        }
        lemma_min_max_fold(func, pre);
        let last = vals.last();
        assert(vals[vals.len() - 1] == last);
        let m0 = fold_values(func, DataType::Int64, pre)->Some_0.0;
        let a = m0->Int64_0->Some_0;
        let b = last->Int64_0->Some_0;
        assert(!is_null_scalar(last));
        let m = fold_values(func, DataType::Int64, vals)->Some_0.0;
        if func is MIN {
            assert(m == Scalar::Int64(Some(if b < a { b } else { a })));
        } else {
            assert(m == Scalar::Int64(Some(if b > a { b } else { a })));
        }
        assert forall|i: int| 0 <= i < vals.len() implies if func is MIN {
            m->Int64_0->Some_0 <= (#[trigger] vals[i])->Int64_0->Some_0
        } else {
            m->Int64_0->Some_0 >= vals[i]->Int64_0->Some_0
        } by {
            if i < vals.len() - 1 {
                assert(vals[i] == pre[i]);
            }
        }
    }
}

/// `n` values, each between `lo` and `hi`, total between `n * lo` and
/// `n * hi`.
proof fn lemma_total_bounds(vals: Seq<Scalar>, lo: int, hi: int)
    requires
        all_ints(vals),
        forall|i: int|
            0 <= i < vals.len() ==> lo <= (#[trigger] vals[i])->Int64_0->Some_0 <= hi,
    ensures
        vals.len() * lo <= int_total(vals) <= vals.len() * hi,
    decreases vals.len(),
{
    if vals.len() > 0 {
        let pre = vals.drop_last();
        assert(all_ints(pre)) by {
            assert forall|i: int| 0 <= i < pre.len() implies (#[trigger] pre[i]) is Int64
                && pre[i]->Int64_0 is Some by {
                assert(pre[i] == vals[i]);
            }
        }
        assert forall|i: int| 0 <= i < pre.len() implies lo <= (#[trigger] pre[i])->Int64_0->Some_0 <= hi by {
            assert(pre[i] == vals[i]);
        }
        lemma_total_bounds(pre, lo, hi);
        assert(vals.last() == vals[vals.len() - 1]);
        assert((pre.len() + 1) * lo == pre.len() * lo + lo) by (nonlinear_arith);
        assert((pre.len() + 1) * hi == pre.len() * hi + hi) by (nonlinear_arith);
    }
}

/// Over `n` non-null Int64 values whose SUM does not overflow:
/// `MIN * n <= SUM <= MAX * n`, and AVG is SUM divided by `n` in floating
/// point.
pub proof fn law_int_aggregates(vals: Seq<Scalar>)
    requires
        all_ints(vals),
        0 < vals.len() < u64::MAX,
        aggregate_of(AggregateFunc::SUM, DataType::Int64, vals) is Some,
    ensures
        aggregate_of(AggregateFunc::SUM, DataType::Int64, vals) matches Some(Scalar::Int64(Some(s)))
            && aggregate_of(AggregateFunc::MIN, DataType::Int64, vals) matches Some(
            Scalar::Int64(Some(lo)),
        ) && aggregate_of(AggregateFunc::MAX, DataType::Int64, vals) matches Some(
            Scalar::Int64(Some(hi)),
        ) && lo * vals.len() <= s && s <= hi * vals.len() && aggregate_of(
            AggregateFunc::AVG,
            DataType::Int64,
            vals,
        ) == Some(
            Scalar::Float64(
                Some(canonical(float_div_of(float_from_i64(s), float_from_u64_of(vals.len() as u64)))),
            ),
        ),
{
    lemma_sum_fold(vals);
    lemma_sum_avg_fold(vals);
    lemma_min_max_fold(AggregateFunc::MIN, vals);
    lemma_min_max_fold(AggregateFunc::MAX, vals);
    let lo = fold_values(AggregateFunc::MIN, DataType::Int64, vals)->Some_0.0->Int64_0->Some_0;
    let hi = fold_values(AggregateFunc::MAX, DataType::Int64, vals)->Some_0.0->Int64_0->Some_0;
    lemma_total_bounds(vals, lo as int, hi as int);
    assert(vals.len() * lo == lo * vals.len()) by (nonlinear_arith);
    assert(vals.len() * hi == hi * vals.len()) by (nonlinear_arith);
}

/// The sum of UInt64 values, as a mathematical integer.
pub open spec fn uint_total(vals: Seq<Scalar>) -> int
    decreases vals.len(),
{
    if vals.len() == 0 {
        0
    } else {
        uint_total(vals.drop_last()) + match vals.last() {
            Scalar::UInt64(Some(x)) => x as int,
            _ => 0,
        }
    }
}

/// Every value is a non-null UInt64.
pub open spec fn all_uints(vals: Seq<Scalar>) -> bool {
    forall|i: int| 0 <= i < vals.len() ==> (#[trigger] vals[i]) is UInt64 && vals[i]->UInt64_0 is Some
}

/// On non-null UInt64 values SUM and AVG fold alike.
proof fn lemma_sum_avg_fold_unsigned(vals: Seq<Scalar>)
    ensures
        fold_values(AggregateFunc::AVG, DataType::UInt64, vals) == fold_values(
            AggregateFunc::SUM,
            DataType::UInt64,
            vals,
        ),
    decreases vals.len(),
{
    if vals.len() > 0 {
        lemma_sum_avg_fold_unsigned(vals.drop_last());
    }
}

/// Folding SUM over non-null UInt64 values, where it succeeds, gives their
/// total and their number.
proof fn lemma_sum_fold_unsigned(vals: Seq<Scalar>)
    requires
        all_uints(vals),
    ensures
        fold_values(AggregateFunc::SUM, DataType::UInt64, vals) matches Some((s, n)) ==> (s
            is UInt64 && s->UInt64_0 is Some && s->UInt64_0->Some_0 as int == uint_total(vals) && n
            == vals.len()),
    decreases vals.len(),
{
    if vals.len() > 0 {
        assert(all_uints(vals.drop_last())) by {
            assert forall|i: int| 0 <= i < vals.drop_last().len() implies (#[trigger] vals.drop_last()[i])
                is UInt64 && vals.drop_last()[i]->UInt64_0 is Some by {
                assert(vals.drop_last()[i] == vals[i]);
            }
        }
        lemma_sum_fold_unsigned(vals.drop_last());
        assert(vals[vals.len() - 1] == vals.last());
    }
}

/// Folding MIN (MAX) over non-null UInt64 values gives a value at most (at
/// least) every one of them, which is one of them when there are any.
proof fn lemma_min_max_fold_unsigned(func: AggregateFunc, vals: Seq<Scalar>)
    requires
        all_uints(vals),
        func is MIN || func is MAX,
        vals.len() < u64::MAX,
    ensures
        fold_values(func, DataType::UInt64, vals) matches Some((m, n)) && m is UInt64
            && m->UInt64_0 is Some && n == vals.len() && forall|i: int|
            0 <= i < vals.len() ==> if func is MIN {
                m->UInt64_0->Some_0 <= (#[trigger] vals[i])->UInt64_0->Some_0
            } else {
                m->UInt64_0->Some_0 >= vals[i]->UInt64_0->Some_0
            },
    decreases vals.len(),
{
    if vals.len() > 0 {
        let pre = vals.drop_last();
        assert(all_uints(pre)) by {
            assert forall|i: int| 0 <= i < pre.len() implies (#[trigger] pre[i]) is UInt64
                && pre[i]->UInt64_0 is Some by {
                assert(pre[i] == vals[i]);
            }
        }
        lemma_min_max_fold_unsigned(func, pre);
        let last = vals.last();
        assert(vals[vals.len() - 1] == last);
        let m0 = fold_values(func, DataType::UInt64, pre)->Some_0.0;
        let a = m0->UInt64_0->Some_0;
        let b = last->UInt64_0->Some_0;
        assert(!is_null_scalar(last));
        let m = fold_values(func, DataType::UInt64, vals)->Some_0.0;
        if func is MIN {
            assert(m == Scalar::UInt64(Some(if b < a { b } else { a })));
        } else {
            assert(m == Scalar::UInt64(Some(if b > a { b } else { a })));
        }
        assert forall|i: int| 0 <= i < vals.len() implies if func is MIN {
            m->UInt64_0->Some_0 <= (#[trigger] vals[i])->UInt64_0->Some_0
        } else {
            m->UInt64_0->Some_0 >= vals[i]->UInt64_0->Some_0
        } by {
            if i < vals.len() - 1 {
                assert(vals[i] == pre[i]);
            }
        }
    }
}

/// `n` values, each between `lo` and `hi`, total between `n * lo` and
/// `n * hi`.
proof fn lemma_total_bounds_unsigned(vals: Seq<Scalar>, lo: int, hi: int)
    requires
        all_uints(vals),
        forall|i: int|
            0 <= i < vals.len() ==> lo <= (#[trigger] vals[i])->UInt64_0->Some_0 <= hi,
    ensures
        vals.len() * lo <= uint_total(vals) <= vals.len() * hi,
    decreases vals.len(),
{
    if vals.len() > 0 {
        let pre = vals.drop_last();
        assert(all_uints(pre)) by {
            assert forall|i: int| 0 <= i < pre.len() implies (#[trigger] pre[i]) is UInt64
                && pre[i]->UInt64_0 is Some by {
                assert(pre[i] == vals[i]);
            }
        }
        assert forall|i: int| 0 <= i < pre.len() implies lo <= (#[trigger] pre[i])->UInt64_0->Some_0 <= hi by {
            assert(pre[i] == vals[i]);
        }
        lemma_total_bounds_unsigned(pre, lo, hi);
        assert(vals.last() == vals[vals.len() - 1]);
        assert((pre.len() + 1) * lo == pre.len() * lo + lo) by (nonlinear_arith);
        assert((pre.len() + 1) * hi == pre.len() * hi + hi) by (nonlinear_arith);
    }
}

/// Over `n` non-null UInt64 values whose SUM does not overflow:
/// `MIN * n <= SUM <= MAX * n`, and AVG is SUM divided by `n` in floating
/// point.
pub proof fn law_uint_aggregates(vals: Seq<Scalar>)
    requires
        all_uints(vals),
        0 < vals.len() < u64::MAX,
        aggregate_of(AggregateFunc::SUM, DataType::UInt64, vals) is Some,
    ensures
        aggregate_of(AggregateFunc::SUM, DataType::UInt64, vals) matches Some(Scalar::UInt64(Some(s)))
            && aggregate_of(AggregateFunc::MIN, DataType::UInt64, vals) matches Some(
            Scalar::UInt64(Some(lo)),
        ) && aggregate_of(AggregateFunc::MAX, DataType::UInt64, vals) matches Some(
            Scalar::UInt64(Some(hi)),
        ) && lo * vals.len() <= s && s <= hi * vals.len() && aggregate_of(
            AggregateFunc::AVG,
            DataType::UInt64,
            vals,
        ) == Some(
            Scalar::Float64(
                Some(canonical(float_div_of(float_from_u64_of(s), float_from_u64_of(vals.len() as u64)))),
            ),
        ),
{
    lemma_sum_fold_unsigned(vals);
    lemma_sum_avg_fold_unsigned(vals);
    lemma_min_max_fold_unsigned(AggregateFunc::MIN, vals);
    lemma_min_max_fold_unsigned(AggregateFunc::MAX, vals);
    let lo = fold_values(AggregateFunc::MIN, DataType::UInt64, vals)->Some_0.0->UInt64_0->Some_0;
    let hi = fold_values(AggregateFunc::MAX, DataType::UInt64, vals)->Some_0.0->UInt64_0->Some_0;
    lemma_total_bounds_unsigned(vals, lo as int, hi as int);
    assert(vals.len() * lo == lo * vals.len()) by (nonlinear_arith);
    assert(vals.len() * hi == hi * vals.len()) by (nonlinear_arith);
}

} // verus!
