use vstd::prelude::*;

use crate::batch::{ColumnArray, RecordBatch};
use crate::datatype::{DataType, Field};
use crate::error::Error;
use crate::kernels::{arith_cell, binary_cell, evaluate_binary, result_type, supported};
use crate::logical_expr::Operator;
use crate::scalar::Scalar;

verus! {

/// Reads column `index` of the batch.
#[derive(Debug, Clone, Copy)]
pub struct ColumnExpr {
    pub index: usize,
}

/// A literal value, the same in every row.
#[derive(Debug)]
pub struct LiteralExpr {
    pub scalar: Scalar,
}

/// Combines the values of two expressions with an operator.
#[derive(Debug)]
pub struct BinaryExpr {
    pub left: Box<PhysicalExpr>,
    pub op: Operator,
    pub right: Box<PhysicalExpr>,
}

/// Gives the value of an expression another name.
#[derive(Debug)]
pub struct AliasExpr {
    pub name: String,
    pub expr: Box<PhysicalExpr>,
}

/// An expression evaluated against a record batch.
#[derive(Debug)]
pub enum PhysicalExpr {
    Column(ColumnExpr),
    Literal(LiteralExpr),
    Binary(BinaryExpr),
    Alias(AliasExpr),
}

/// Why an evaluation fails.
#[derive(Debug, Clone, Copy, PartialEq, Eq, Structural)]
pub enum Failure {
    /// A column index beyond the batch.
    NoColumn,
    /// Operands of types that the operator cannot combine.
    Type,
    /// A kernel failed on some row (overflow, division by zero).
    Kernel,
}

/// The error that stands for a failure.
pub open spec fn error_is(e: Error, f: Failure) -> bool {
    match f {
        Failure::NoColumn => e is NoSuchColumn,
        Failure::Type => e is IntervalError,
        Failure::Kernel => e is ArrowError,
    }
}

/// The type and the row values of an expression over a batch, or why it
/// fails. Operands are evaluated left first.
pub open spec fn eval_spec(e: PhysicalExpr, b: RecordBatch) -> Result<(DataType, Seq<Scalar>), Failure>
    decreases e,
{
    match e {
        PhysicalExpr::Column(c) => if c.index < b.columns@.len() {
            Ok((b.columns@[c.index as int].data_type_spec(), b.columns@[c.index as int].cells()))
        } else {
            Err(Failure::NoColumn)
        },
        PhysicalExpr::Literal(l) => Ok(
            (l.scalar.data_type_spec(), Seq::new(b.num_rows as nat, |_i: int| l.scalar)),
        ),
        PhysicalExpr::Alias(a) => eval_spec(*a.expr, b),
        PhysicalExpr::Binary(x) => match eval_spec(*x.left, b) {
            Err(f) => Err(f),
            Ok((lt, lc)) => match eval_spec(*x.right, b) {
                Err(f) => Err(f),
                Ok((rt, rc)) => binary_spec(x.op, lt, lc, rt, rc),
            },
        },
    }
}

/// `l op r` on evaluated operands.
pub open spec fn binary_spec(
    op: Operator,
    lt: DataType,
    lc: Seq<Scalar>,
    rt: DataType,
    rc: Seq<Scalar>,
) -> Result<(DataType, Seq<Scalar>), Failure> {
    if !supported(op, lt, rt) {
        Err(Failure::Type)
    } else if op.is_arithmetic() && exists|i: int|
        0 <= i < lc.len() && (#[trigger] arith_cell(op, lc[i], rc[i])) is None {
        Err(Failure::Kernel)
    } else {
        Ok((result_type(op, lt), Seq::new(lc.len(), |i: int| binary_cell(op, lc[i], rc[i]))))
    }
}

/// The output field of an expression over input fields: its name, type and
/// nullability; `None` for a column index beyond them.
pub open spec fn expr_field_spec(e: PhysicalExpr, fields: Seq<Field>) -> Option<
    (Seq<char>, DataType, bool),
>
    decreases e,
{
    match e {
        PhysicalExpr::Column(c) => if c.index < fields.len() {
            let f = fields[c.index as int];
            Some((f.name@, f.data_type, f.nullable))
        } else {
            None
        },
        PhysicalExpr::Literal(l) => Some((l.scalar.text_spec(), l.scalar.data_type_spec(), false)),
        PhysicalExpr::Alias(a) => match expr_field_spec(*a.expr, fields) {
            Some((_, t, n)) => Some((a.name@, t, n)),
            None => None,
        },
        PhysicalExpr::Binary(x) => match expr_field_spec(*x.left, fields) {
            None => None,
            Some((ln, lt, _)) => match expr_field_spec(*x.right, fields) {
                None => None,
                Some((rn, _, _)) => Some(
                    (ln + " "@ + x.op.symbol_spec() + " "@ + rn, result_type(x.op, lt), true),
                ),
            },
        },
    }
}

impl ColumnExpr {
    pub fn new(index: usize) -> (r: PhysicalExpr)
        ensures
            r == PhysicalExpr::Column(ColumnExpr { index }),
    {
        PhysicalExpr::Column(ColumnExpr { index })
    }
}

impl LiteralExpr {
    pub fn new(scalar: Scalar) -> (r: PhysicalExpr)
        ensures
            r == PhysicalExpr::Literal(LiteralExpr { scalar }),
    {
        PhysicalExpr::Literal(LiteralExpr { scalar })
    }
}

impl BinaryExpr {
    pub fn new(left: PhysicalExpr, op: Operator, right: PhysicalExpr) -> (r: PhysicalExpr)
        ensures
            r == PhysicalExpr::Binary(BinaryExpr { left: Box::new(left), op, right: Box::new(right) }),
    {
        PhysicalExpr::Binary(BinaryExpr { left: Box::new(left), op, right: Box::new(right) })
    }
}

impl AliasExpr {
    pub fn new(name: String, expr: PhysicalExpr) -> (r: PhysicalExpr)
        ensures
            r == PhysicalExpr::Alias(AliasExpr { name, expr: Box::new(expr) }),
    {
        PhysicalExpr::Alias(AliasExpr { name, expr: Box::new(expr) })
    }
}

impl PhysicalExpr {
    /// Evaluates the expression against every row of `batch`.
    pub fn evaluate(&self, batch: &RecordBatch) -> (r: Result<ColumnArray, Error>)
        requires
            batch.wf(),
        ensures
            match (r, eval_spec(*self, *batch)) {
                (Ok(c), Ok((t, cells))) => c.data_type_spec() == t && c.cells() == cells
                    && c.len_spec() == batch.num_rows,
                (Err(e), Err(f)) => error_is(e, f),
                _ => false,
            },
        decreases self,
    {
        match self {
            PhysicalExpr::Column(c) => {
                if c.index < batch.columns.len() {
                    let col = batch.columns[c.index].copy();
                    proof {
                        assert(col.cells() =~= batch.columns@[c.index as int].cells());
                    }
                    Ok(ColumnArray::Array(col))
                } else {
                    Err(Error::NoSuchColumn("column index out of range".to_string()))
                }
            },
            PhysicalExpr::Literal(l) => {
                let r = ColumnArray::Literal(l.scalar.clone(), batch.num_rows);
                assert(r.cells() =~= Seq::new(batch.num_rows as nat, |_i: int| l.scalar));
                Ok(r)
            },
            PhysicalExpr::Alias(a) => a.expr.evaluate(batch),
            PhysicalExpr::Binary(x) => {
                let l = match x.left.evaluate(batch) {
                    Ok(v) => v,
                    Err(e) => {
                        return Err(e);
                    },
                };
                let r = match x.right.evaluate(batch) {
                    Ok(v) => v,
                    Err(e) => {
                        return Err(e);
                    },
                };
                let la = l.to_array();
                let ra = r.to_array();
                let res = evaluate_binary(x.op, &la, &ra);
                proof {
                    let lc = la.cells();
                    let rc = ra.cells();
                    if res is Ok {
                        assert(Seq::new(la.len_spec(), |i: int| binary_cell(x.op, la.cell(i), ra.cell(i)))
                            =~= Seq::new(lc.len(), |i: int| binary_cell(x.op, lc[i], rc[i])));
                        if x.op.is_arithmetic() {
                            assert forall|i: int| 0 <= i < lc.len() implies !((#[trigger] arith_cell(
                                x.op,
                                lc[i],
                                rc[i],
                            )) is None) by {
                                assert(lc[i] == la.cell(i));
                                assert(rc[i] == ra.cell(i));
                            }
                        }
                    } else if supported(x.op, la.data_type_spec(), ra.data_type_spec()) {
                        let w = choose|i: int|
                            0 <= i < la.len_spec() && (#[trigger] arith_cell(
                                x.op,
                                la.cell(i),
                                ra.cell(i),
                            )) is None;
                        assert(lc[w] == la.cell(w));
                        assert(rc[w] == ra.cell(w));
                        assert(arith_cell(x.op, lc[w], rc[w]) is None);
                    }
                }
                match res {
                    Ok(c) => Ok(ColumnArray::Array(c)),
                    Err(e) => Err(e),
                }
            },
        }
    }

    /// The field that the expression gives over `batch`.
    pub fn to_field(&self, batch: &RecordBatch) -> (r: Result<Field, Error>)
        ensures
            match (r, expr_field_spec(*self, batch.schema.fields@)) {
                (Ok(f), Some((n, t, null))) => f.name@ == n && f.data_type == t && f.nullable
                    == null,
                (Err(e), None) => e is NoSuchColumn,
                _ => false,
            },
        decreases self,
    {
        match self {
            PhysicalExpr::Column(c) => {
                if c.index < batch.schema.fields.len() {
                    Ok(batch.schema.fields[c.index].clone())
                } else {
                    Err(Error::NoSuchColumn("column index out of range".to_string()))
                }
            },
            PhysicalExpr::Literal(l) => Ok(l.scalar.to_field()),
            PhysicalExpr::Alias(a) => match a.expr.to_field(batch) {
                Ok(f) => Ok(Field { name: a.name.clone(), data_type: f.data_type, nullable: f.nullable }),
                Err(e) => Err(e),
            },
            PhysicalExpr::Binary(x) => {
                let l = match x.left.to_field(batch) {
                    Ok(f) => f,
                    Err(e) => {
                        return Err(e);
                    },
                };
                let r = match x.right.to_field(batch) {
                    Ok(f) => f,
                    Err(e) => {
                        return Err(e);
                    },
                };
                let mut name = l.name.clone();
                name.append(" ");
                name.append(x.op.symbol().as_str());
                name.append(" ");
                name.append(r.name.as_str());
                let t = if x.op == Operator::Add || x.op == Operator::Sub || x.op == Operator::Mul
                    || x.op == Operator::Div || x.op == Operator::Mod {
                    l.data_type
                } else {
                    DataType::Boolean
                };
                Ok(Field { name, data_type: t, nullable: true })
            },
        }
    }
}

} // verus!
