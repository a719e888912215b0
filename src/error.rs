use vstd::prelude::*;

verus! {

/// Every way in which building, planning or running a query can fail.
#[derive(Debug, PartialEq, Eq)]
pub enum Error {
    /// A name was looked up in a schema that has no field of that name.
    NoSuchField,
    /// A failure inside a columnar kernel (overflow, division by zero).
    ArrowError(String),
    /// A failure while reading a data source.
    IOError(String),
    /// The catalog holds no table of that name.
    NoSuchTable(String),
    /// A logical plan could not be built.
    LogicalPlanError(String),
    /// A physical plan could not be run.
    PhysicalPlanError(String),
    /// A binary expression was given operands of types it cannot combine.
    IntervalError(String),
    /// The planner met a column name that its input does not have.
    NoSuchColumn(String),
}

} // verus!
