use vstd::prelude::*;

use crate::datatype::{has_name, is_first_index, str_eq, DataType, Field};
use crate::error::Error;
use crate::kernels::result_type;
use crate::scalar::Scalar;

verus! {

/// The operator of a binary expression.
#[derive(Clone, Copy, Debug, PartialEq, Eq, Structural)]
pub enum Operator {
    /// Equality (`=`) comparison
    Eq,
    /// Inequality (`!=`) comparison
    Neq,
    /// Greater than (`>`) comparison
    Gt,
    /// Greater than or equals (`>=`) comparison
    GtEq,
    /// Less than (`<`) comparison
    Lt,
    /// Less than or equals (`<=`) comparison
    LtEq,
    /// Logical AND
    And,
    /// Logical OR
    Or,
    /// Addition operator (`+`)
    Add,
    /// Subtract operator (`-`)
    Sub,
    /// Multiply operator (`*`)
    Mul,
    /// Divide operator (`/`)
    Div,
    /// Modulus operator (`%`)
    Mod,
}

impl Operator {
    pub open spec fn is_comparison(self) -> bool {
        self is Eq || self is Neq || self is Gt || self is GtEq || self is Lt || self is LtEq
    }

    pub open spec fn is_logical(self) -> bool {
        self is And || self is Or
    }

    pub open spec fn is_arithmetic(self) -> bool {
        self is Add || self is Sub || self is Mul || self is Div || self is Mod
    }

    pub open spec fn symbol_spec(self) -> Seq<char> {
        match self {
            Operator::Eq => "="@,
            Operator::Neq => "!="@,
            Operator::Lt => "<"@,
            Operator::LtEq => "<="@,
            Operator::Gt => ">"@,
            Operator::GtEq => ">="@,
            Operator::And => "and"@,
            Operator::Or => "or"@,
            Operator::Add => "+"@,
            Operator::Sub => "-"@,
            Operator::Mul => "*"@,
            Operator::Div => "/"@,
            Operator::Mod => "%"@,
        }
    }

    /// The symbol under which the operator is shown in a field name.
    pub fn symbol(&self) -> (r: String)
        ensures
            r@ == self.symbol_spec(),
    {
        match self {
            Operator::Eq => "=".to_string(),
            Operator::Neq => "!=".to_string(),
            Operator::Lt => "<".to_string(),
            Operator::LtEq => "<=".to_string(),
            Operator::Gt => ">".to_string(),
            Operator::GtEq => ">=".to_string(),
            Operator::And => "and".to_string(),
            Operator::Or => "or".to_string(),
            Operator::Add => "+".to_string(),
            Operator::Sub => "-".to_string(),
            Operator::Mul => "*".to_string(),
            Operator::Div => "/".to_string(),
            Operator::Mod => "%".to_string(),
        }
    }
}

/// An aggregate function over one column.
#[derive(Clone, Copy, Debug, PartialEq, Eq, Structural)]
pub enum AggregateFunc {
    SUM,
    MIN,
    MAX,
    AVG,
    COUNT,
}

impl AggregateFunc {
    pub open spec fn name_spec(self) -> Seq<char> {
        match self {
            AggregateFunc::SUM => "SUM"@,
            AggregateFunc::MIN => "MIN"@,
            AggregateFunc::MAX => "MAX"@,
            AggregateFunc::AVG => "AVG"@,
            AggregateFunc::COUNT => "COUNT"@,
        }
    }

    /// The name under which the function is shown.
    pub fn name(&self) -> (r: String)
        ensures
            r@ == self.name_spec(),
    {
        match self {
            AggregateFunc::SUM => "SUM".to_string(),
            AggregateFunc::MIN => "MIN".to_string(),
            AggregateFunc::MAX => "MAX".to_string(),
            AggregateFunc::AVG => "AVG".to_string(),
            AggregateFunc::COUNT => "COUNT".to_string(),
        }
    }
}

/// A scalar function.
#[derive(Clone, Copy, Debug, PartialEq, Eq, Structural)]
pub enum ScalarFunc {
    CONCAT,
    SUBSTRING,
    ABS,
    SQRT,
    POWER,
}

impl ScalarFunc {
    pub open spec fn name_spec(self) -> Seq<char> {
        match self {
            ScalarFunc::CONCAT => "CONCAT"@,
            ScalarFunc::SUBSTRING => "SUBSTRING"@,
            ScalarFunc::ABS => "ABS"@,
            ScalarFunc::SQRT => "SQRT"@,
            ScalarFunc::POWER => "POWER"@,
        }
    }

    /// The type of the function's result.
    pub open spec fn return_type(self) -> DataType {
        match self {
            ScalarFunc::CONCAT => DataType::Utf8,
            ScalarFunc::SUBSTRING => DataType::Utf8,
            _ => DataType::Int64,
        }
    }

    pub fn name(&self) -> (r: String)
        ensures
            r@ == self.name_spec(),
    {
        match self {
            ScalarFunc::CONCAT => "CONCAT".to_string(),
            ScalarFunc::SUBSTRING => "SUBSTRING".to_string(),
            ScalarFunc::ABS => "ABS".to_string(),
            ScalarFunc::SQRT => "SQRT".to_string(),
            ScalarFunc::POWER => "POWER".to_string(),
        }
    }
}

/// An expression of a logical plan, over columns named in its input.
#[derive(Debug)]
pub enum LogicalExpr {
    /// Combines two expressions with an operator.
    BinaryExpr(BinaryExpr),
    /// A literal value.
    Literal(Scalar),
    /// Names the value of an expression.
    Alias(Alias),
    /// The input column of that name.
    Column(String),
    /// A scalar function of some expressions.
    ScalarFuncExpr(ScalarFuncExpr),
    /// An aggregate function of an expression.
    AggregateFuncExpr(AggregateFuncExpr),
}

#[derive(Debug)]
pub struct BinaryExpr {
    pub left: Box<LogicalExpr>,
    pub op: Operator,
    pub right: Box<LogicalExpr>,
}

#[derive(Debug)]
pub struct Alias {
    pub name: String,
    pub expr: Box<LogicalExpr>,
}

#[derive(Debug)]
pub struct ScalarFuncExpr {
    pub func: ScalarFunc,
    pub exprs: Vec<LogicalExpr>,
}

#[derive(Debug)]
pub struct AggregateFuncExpr {
    pub func: AggregateFunc,
    pub expr: Box<LogicalExpr>,
}

/// The output field of an expression over input fields, as name, type and
/// nullability; `None` where a column name is missing.
pub open spec fn field_spec(e: LogicalExpr, fields: Seq<Field>) -> Option<(Seq<char>, DataType, bool)>
    decreases e,
{
    match e {
        LogicalExpr::Literal(s) => Some((s.text_spec(), s.data_type_spec(), false)),
        LogicalExpr::Column(n) => if has_name(fields, n@) {
            let i = choose|i: int| is_first_index(fields, n@, i);
            Some((fields[i].name@, fields[i].data_type, fields[i].nullable))
        } else {
            None
        },
        LogicalExpr::Alias(a) => match field_spec(*a.expr, fields) {
            Some((_, t, n)) => Some((a.name@, t, n)),
            None => None,
        },
        LogicalExpr::BinaryExpr(b) => match field_spec(*b.left, fields) {
            None => None,
            Some((ln, lt, _)) => match field_spec(*b.right, fields) {
                None => None,
                Some((rn, _, _)) => Some(
                    (ln + " "@ + b.op.symbol_spec() + " "@ + rn, result_type(b.op, lt), true),
                ),
            },
        },
        LogicalExpr::ScalarFuncExpr(f) => match arg_names(f.exprs@, fields) {
            None => None,
            Some(names) => Some(
                (f.func.name_spec() + "("@ + names + ")"@, f.func.return_type(), true),
            ),
        },
        LogicalExpr::AggregateFuncExpr(a) => match field_spec(*a.expr, fields) {
            None => None,
            Some((n, t, _)) => Some(
                (a.func.name_spec() + "("@ + n + ")"@, aggregate_type(a.func, t), true),
            ),
        },
    }
}

/// The names of the fields of `es`, separated by ", ".
pub open spec fn arg_names(es: Seq<LogicalExpr>, fields: Seq<Field>) -> Option<Seq<char>>
    decreases es,
{
    if es.len() == 0 {
        Some(Seq::empty())
    } else {
        match field_spec(es[0], fields) {
            None => None,
            Some((n, _, _)) => if es.len() == 1 {
                Some(n)
            } else {
                match arg_names(es.drop_first(), fields) {
                    None => None,
                    Some(rest) => Some(n + ", "@ + rest),
                }
            },
        }
    }
}

/// The type of an aggregate of values of type `t`: AVG gives Float64,
/// COUNT UInt64, the others `t`.
pub open spec fn aggregate_type(func: AggregateFunc, t: DataType) -> DataType {
    match func {
        AggregateFunc::AVG => DataType::Float64,
        AggregateFunc::COUNT => DataType::UInt64,
        _ => t,
    }
}

pub fn aggregate_type_of(func: AggregateFunc, t: DataType) -> (r: DataType)
    ensures
        r == aggregate_type(func, t),
{
    match func {
        AggregateFunc::AVG => DataType::Float64,
        AggregateFunc::COUNT => DataType::UInt64,
        _ => t,
    }
}

/// The first field named `name`.
pub fn lookup_field(fields: &Vec<Field>, name: &str) -> (r: Option<usize>)
    ensures
        match r {
            Some(i) => is_first_index(fields@, name@, i as int),
            None => !has_name(fields@, name@),
        },
{
    let mut i: usize = 0;
    while i < fields.len()
        invariant
            i <= fields@.len(),
            forall|j: int| 0 <= j < i ==> fields@[j].name@ != name@,
        decreases fields@.len() - i,
    {
        if str_eq(fields[i].name.as_str(), name) {
            return Some(i);
        }
        i = i + 1;
    }
    None
}

/// When the names of a suffix cannot be had, neither can those of the
/// whole list.
pub proof fn lemma_arg_names_none(es: Seq<LogicalExpr>, fields: Seq<Field>, j: int)
    requires
        0 <= j < es.len(),
        arg_names(es.skip(j), fields) is None,
    ensures
        arg_names(es, fields) is None,
    decreases j,
{
    if j == 0 {
        assert(es.skip(0) =~= es);
    } else {
        let s = es.skip(j - 1);
        assert(s[0] == es[j - 1]);
        assert(s.drop_first() =~= es.skip(j));
        lemma_arg_names_none(es, fields, j - 1);
    }
}

/// There is one first index of a name.
pub proof fn lemma_first_index_unique(fields: Seq<Field>, name: Seq<char>, i: int, j: int)
    requires
        is_first_index(fields, name, i),
        is_first_index(fields, name, j),
    ensures
        i == j,
{
}

impl LogicalExpr {
    /// The field that the expression gives over the fields of its input.
    pub fn to_field_in(&self, fields: &Vec<Field>) -> (r: Result<Field, Error>)
        ensures
            match (r, field_spec(*self, fields@)) {
                (Ok(f), Some((n, t, null))) => f.name@ == n && f.data_type == t && f.nullable == null,
                (Err(e), None) => e == Error::NoSuchField,
                _ => false,
            },
        decreases self,
    {
        match self {
            LogicalExpr::Literal(s) => Ok(s.to_field()),
            LogicalExpr::Column(n) => match lookup_field(fields, n.as_str()) {
                Some(i) => {
                    proof {
                        let k = choose|k: int| is_first_index(fields@, n@, k);
                        lemma_first_index_unique(fields@, n@, i as int, k);
                    }
                    Ok(fields[i].clone())
                },
                None => Err(Error::NoSuchField),
            },
            LogicalExpr::Alias(a) => match a.expr.to_field_in(fields) {
                Ok(f) => Ok(Field { name: a.name.clone(), data_type: f.data_type, nullable: f.nullable }),
                Err(e) => Err(e),
            },
            LogicalExpr::BinaryExpr(b) => {
                let l = match b.left.to_field_in(fields) {
                    Ok(f) => f,
                    Err(e) => {
                        return Err(e);
                    },
                };
                let r = match b.right.to_field_in(fields) {
                    Ok(f) => f,
                    Err(e) => {
                        return Err(e);
                    },
                };
                let mut name = l.name.clone();
                name.append(" ");
                name.append(b.op.symbol().as_str());
                name.append(" ");
                name.append(r.name.as_str());
                let t = if b.op == Operator::Add || b.op == Operator::Sub || b.op == Operator::Mul
                    || b.op == Operator::Div || b.op == Operator::Mod {
                    l.data_type
                } else {
                    DataType::Boolean
                };
                Ok(Field { name, data_type: t, nullable: true })
            },
            LogicalExpr::ScalarFuncExpr(f) => {
                let n = f.exprs.len();
                let mut names = String::new();
                let mut i: usize = n;
                assert(f.exprs@.skip(n as int) =~= Seq::<LogicalExpr>::empty());
                while i > 0
                    invariant
                        *self is ScalarFuncExpr && (*self)->ScalarFuncExpr_0 == *f,
                        n == f.exprs@.len(),
                        i <= n,
                        arg_names(f.exprs@.skip(i as int), fields@) == Some(names@),
                    decreases i,
                {
                    let j = i - 1;
                    proof {
                        assert(decreases_to!(*self => (*self)->ScalarFuncExpr_0));
                        assert(decreases_to!((*self)->ScalarFuncExpr_0 => f.exprs));
                        vstd::std_specs::vec::axiom_vec_index_decreases(f.exprs, j as int);
                    }
                    let ghost rest = f.exprs@.skip(j as int);
                    assert(rest[0] == f.exprs@[j as int]);
                    assert(rest.drop_first() =~= f.exprs@.skip(i as int));
                    let a = match f.exprs[j].to_field_in(fields) {
                        Ok(a) => a,
                        Err(e) => {
                            proof {
                                lemma_arg_names_none(f.exprs@, fields@, j as int);
                            }
                            return Err(e);
                        },
                    };
                    let mut s = a.name.clone();
                    if i < n {
                        s.append(", ");
                        s.append(names.as_str());
                    }
                    names = s;
                    i = j;
                }
                assert(f.exprs@.skip(0) =~= f.exprs@);
                let mut name = f.func.name();
                name.append("(");
                name.append(names.as_str());
                name.append(")");
                let t = match f.func {
                    ScalarFunc::CONCAT => DataType::Utf8,
                    ScalarFunc::SUBSTRING => DataType::Utf8,
                    _ => DataType::Int64,
                };
                Ok(Field { name, data_type: t, nullable: true })
            },
            LogicalExpr::AggregateFuncExpr(a) => a.to_field_in(fields),
        }
    }

    /// The field that the expression gives over the output of `input`.
    pub fn to_field(&self, input: &crate::logical_plan::LogicalPlan) -> (r: Result<Field, Error>)
        ensures
            match (r, field_spec(*self, input.schema_spec().fields@)) {
                (Ok(f), Some((n, t, null))) => f.name@ == n && f.data_type == t && f.nullable == null,
                (Err(e), None) => e == Error::NoSuchField,
                _ => false,
            },
    {
        self.to_field_in(&input.schema().fields)
    }
}

impl AggregateFuncExpr {
    pub fn to_field_in(&self, fields: &Vec<Field>) -> (r: Result<Field, Error>)
        ensures
            match (r, field_spec(LogicalExpr::AggregateFuncExpr(*self), fields@)) {
                (Ok(f), Some((n, t, null))) => f.name@ == n && f.data_type == t && f.nullable == null,
                (Err(e), None) => e == Error::NoSuchField,
                _ => false,
            },
        decreases self,
    {
        let f = match self.expr.to_field_in(fields) {
            Ok(f) => f,
            Err(e) => {
                return Err(e);
            },
        };
        let mut name = self.func.name();
        name.append("(");
        name.append(f.name.as_str());
        name.append(")");
        Ok(Field { name, data_type: aggregate_type_of(self.func, f.data_type), nullable: true })
    }

    /// The field that the aggregate gives over the output of `input`.
    pub fn to_field(&self, input: &crate::logical_plan::LogicalPlan) -> (r: Result<Field, Error>)
        ensures
            match (r, field_spec(LogicalExpr::AggregateFuncExpr(*self), input.schema_spec().fields@)) {
                (Ok(f), Some((n, t, null))) => f.name@ == n && f.data_type == t && f.nullable == null,
                (Err(e), None) => e == Error::NoSuchField,
                _ => false,
            },
    {
        self.to_field_in(&input.schema().fields)
    }
}

} // verus!
