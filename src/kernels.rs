//! Element-wise kernels over columns: comparison, logic and arithmetic.
use vstd::prelude::*;

use crate::array::{repeat_copy, ColumnVector};
use crate::datatype::DataType;
use crate::error::Error;
use crate::floats::{
    canonical,
    float_add, float_add_of, float_div, float_div_of, float_mul, float_mul_of, float_rem,
    float_rem_of, float_sub, float_sub_of, order_key, total_order_key,
};
use crate::logical_expr::Operator;
use crate::scalar::Scalar;

verus! {

/// The value is a null (of any type).
pub open spec fn is_null_scalar(s: Scalar) -> bool {
    match s {
        Scalar::Null => true,
        Scalar::Boolean(v) => v is None,
        Scalar::Float64(v) => v is None,
        Scalar::Int64(v) => v is None,
        Scalar::UInt64(v) => v is None,
        Scalar::Utf8(v) => v is None,
    }
}

/// -1, 0 or 1 as `x` is below, equal to or above `y`.
pub open spec fn int_order(x: int, y: int) -> int {
    if x < y {
        -1
    } else if x == y {
        0
    } else {
        1
    }
}

/// Lexicographic order of two strings, by code point.
pub open spec fn lex_order(a: Seq<char>, b: Seq<char>) -> int
    decreases a.len(),
{
    if a.len() == 0 {
        if b.len() == 0 {
            0
        } else {
            -1
        }
    } else if b.len() == 0 {
        1
    } else if (a[0] as u32) != (b[0] as u32) {
        int_order(a[0] as u32 as int, b[0] as u32 as int)
    } else {
        lex_order(a.drop_first(), b.drop_first())
    }
}

/// The order of two non-null values of one type: `false < true`, numbers by
/// value, floats by `totalOrder`, strings lexicographically.
pub open spec fn order_of(a: Scalar, b: Scalar) -> int {
    match (a, b) {
        (Scalar::Boolean(Some(x)), Scalar::Boolean(Some(y))) => int_order(
            if x { 1int } else { 0int },
            if y { 1int } else { 0int },
        ),
        (Scalar::Int64(Some(x)), Scalar::Int64(Some(y))) => int_order(x as int, y as int),
        (Scalar::UInt64(Some(x)), Scalar::UInt64(Some(y))) => int_order(x as int, y as int),
        (Scalar::Float64(Some(x)), Scalar::Float64(Some(y))) => int_order(
            total_order_key(x) as int,
            total_order_key(y) as int,
        ),
        (Scalar::Utf8(Some(x)), Scalar::Utf8(Some(y))) => lex_order(x@, y@),
        _ => 0,
    }
}

/// A comparison operator holds of an order.
pub open spec fn holds(op: Operator, o: int) -> bool {
    match op {
        Operator::Eq => o == 0,
        Operator::Neq => o != 0,
        Operator::Lt => o < 0,
        Operator::LtEq => o <= 0,
        Operator::Gt => o > 0,
        Operator::GtEq => o >= 0,
        _ => false,
    }
}

/// A comparison of two values: null if either is null.
pub open spec fn compare_cell(op: Operator, a: Scalar, b: Scalar) -> Scalar {
    if is_null_scalar(a) || is_null_scalar(b) {
        Scalar::Boolean(None)
    } else {
        Scalar::Boolean(Some(holds(op, order_of(a, b))))
    }
}

/// `and` / `or` of two booleans: null if either is null.
pub open spec fn logic_cell(op: Operator, a: Scalar, b: Scalar) -> Scalar {
    match (a, b) {
        (Scalar::Boolean(Some(x)), Scalar::Boolean(Some(y))) => Scalar::Boolean(
            Some(if op is And { x && y } else { x || y }),
        ),
        _ => Scalar::Boolean(None),
    }
}

/// Checked signed arithmetic; `None` on overflow or a zero divisor. The
/// remainder of `MIN` by `-1` is 0.
pub open spec fn i64_arith(op: Operator, x: i64, y: i64) -> Option<i64> {
    match op {
        Operator::Add => x.checked_add(y),
        Operator::Sub => x.checked_sub(y),
        Operator::Mul => x.checked_mul(y),
        Operator::Div => x.checked_div(y),
        _ => if y == 0 {
            None
        } else if x == i64::MIN && y == -1 {
            Some(0)
        } else {
            x.checked_rem(y)
        },
    }
}

/// Checked unsigned arithmetic; `None` on overflow or a zero divisor.
pub open spec fn u64_arith(op: Operator, x: u64, y: u64) -> Option<u64> {
    match op {
        Operator::Add => x.checked_add(y),
        Operator::Sub => x.checked_sub(y),
        Operator::Mul => x.checked_mul(y),
        Operator::Div => x.checked_div(y),
        _ => x.checked_rem(y),
    }
}

/// Float arithmetic as arrow computes it, every NaN made canonical; it never
/// fails.
pub open spec fn f64_arith(op: Operator, x: u64, y: u64) -> u64 {
    match op {
        Operator::Add => canonical(float_add_of(x, y)),
        Operator::Sub => canonical(float_sub_of(x, y)),
        Operator::Mul => canonical(float_mul_of(x, y)),
        Operator::Div => canonical(float_div_of(x, y)),
        _ => canonical(float_rem_of(x, y)),
    }
}

/// Arithmetic on two values of one numeric type: null if either is null,
/// `None` where the kernel fails.
pub open spec fn arith_cell(op: Operator, a: Scalar, b: Scalar) -> Option<Scalar> {
    match (a, b) {
        (Scalar::Int64(Some(x)), Scalar::Int64(Some(y))) => match i64_arith(op, x, y) {
            Some(v) => Some(Scalar::Int64(Some(v))),
            None => None,
        },
        (Scalar::UInt64(Some(x)), Scalar::UInt64(Some(y))) => match u64_arith(op, x, y) {
            Some(v) => Some(Scalar::UInt64(Some(v))),
            None => None,
        },
        (Scalar::Float64(Some(x)), Scalar::Float64(Some(y))) => Some(
            Scalar::Float64(Some(f64_arith(op, x, y))),
        ),
        (Scalar::Int64(_), _) => Some(Scalar::Int64(None)),
        (Scalar::UInt64(_), _) => Some(Scalar::UInt64(None)),
        _ => Some(Scalar::Float64(None)),
    }
}

/// The operator can combine operands of types `l` and `r`.
pub open spec fn supported(op: Operator, l: DataType, r: DataType) -> bool {
    &&& l == r
    &&& op.is_logical() ==> l == DataType::Boolean
    &&& op.is_arithmetic() ==> (l == DataType::Int64 || l == DataType::UInt64 || l
        == DataType::Float64)
}

/// The type of `l op r`.
pub open spec fn result_type(op: Operator, l: DataType) -> DataType {
    if op.is_arithmetic() {
        l
    } else {
        DataType::Boolean
    }
}

/// The value of `a op b`, where the kernel does not fail.
pub open spec fn binary_cell(op: Operator, a: Scalar, b: Scalar) -> Scalar {
    if op.is_comparison() {
        compare_cell(op, a, b)
    } else if op.is_logical() {
        logic_cell(op, a, b)
    } else {
        arith_cell(op, a, b).unwrap()
    }
}

/// The kernel fails on some row.
pub open spec fn kernel_fails(op: Operator, l: ColumnVector, r: ColumnVector) -> bool {
    op.is_arithmetic() && exists|i: int|
        0 <= i < l.len_spec() && (#[trigger] arith_cell(op, l.cell(i), r.cell(i))) is None
}

/// What `l op r` gives: a column of `binary_cell` values, or the error.
pub open spec fn binary_result(op: Operator, l: ColumnVector, r: ColumnVector, res: Result<
    ColumnVector,
    Error,
>) -> bool {
    match res {
        Ok(c) => {
            &&& supported(op, l.data_type_spec(), r.data_type_spec())
            &&& !kernel_fails(op, l, r)
            &&& c.data_type_spec() == result_type(op, l.data_type_spec())
            &&& c.len_spec() == l.len_spec()
            &&& c.cells() == Seq::new(l.len_spec(), |i: int| binary_cell(op, l.cell(i), r.cell(i)))
        },
        Err(e) => if !supported(op, l.data_type_spec(), r.data_type_spec()) {
            e matches Error::IntervalError(m) && m@ == type_message(
                op,
                l.data_type_spec(),
                r.data_type_spec(),
            )
        } else {
            e is ArrowError && kernel_fails(op, l, r)
        },
    }
}

fn holds_exec(op: Operator, o: i8) -> (r: bool)
    ensures
        r == holds(op, o as int),
{
    match op {
        Operator::Eq => o == 0,
        Operator::Neq => o != 0,
        Operator::Lt => o < 0,
        Operator::LtEq => o <= 0,
        Operator::Gt => o > 0,
        Operator::GtEq => o >= 0,
        _ => false,
    }
}

fn order_u128(x: u128, y: u128) -> (r: i8)
    ensures
        r as int == int_order(x as int, y as int),
{
    if x < y {
        -1
    } else if x == y {
        0
    } else {
        1
    }
}

fn order_i64(x: i64, y: i64) -> (r: i8)
    ensures
        r as int == int_order(x as int, y as int),
{
    if x < y {
        -1
    } else if x == y {
        0
    } else {
        1
    }
}

proof fn lemma_lex_skip(a: Seq<char>, b: Seq<char>, i: int)
    requires
        0 <= i < a.len(),
        i < b.len(),
        a[i] as u32 == b[i] as u32,
    ensures
        lex_order(a.skip(i), b.skip(i)) == lex_order(a.skip(i + 1), b.skip(i + 1)),
{
    assert(a.skip(i).drop_first() =~= a.skip(i + 1));
    assert(b.skip(i).drop_first() =~= b.skip(i + 1));
}

/// Lexicographic comparison of two strings.
pub fn str_order(a: &str, b: &str) -> (r: i8)
    ensures
        r as int == lex_order(a@, b@),
{
    let la = a.unicode_len();
    let lb = b.unicode_len();
    let mut i: usize = 0;
    assert(a@.skip(0) =~= a@);
    assert(b@.skip(0) =~= b@);
    while i < la && i < lb
        invariant
            la == a@.len(),
            lb == b@.len(),
            i <= la,
            i <= lb,
            lex_order(a@, b@) == lex_order(a@.skip(i as int), b@.skip(i as int)),
        decreases la - i,
    {
        let ca = a.get_char(i) as u32;
        let cb = b.get_char(i) as u32;
        if ca != cb {
            assert(a@.skip(i as int)[0] == a@[i as int]);
            assert(b@.skip(i as int)[0] == b@[i as int]);
            return order_u128(ca as u128, cb as u128);
        }
        proof {
            lemma_lex_skip(a@, b@, i as int);
        }
        i = i + 1;
    }
    if i == la && i == lb {
        0
    } else if i == la {
        -1
    } else {
        1
    }
}

fn compare_bools(op: Operator, a: &Vec<Option<bool>>, b: &Vec<Option<bool>>) -> (r: Vec<Option<bool>>)
    requires
        op.is_comparison(),
        a@.len() == b@.len(),
    ensures
        r@.len() == a@.len(),
        forall|i: int|
            0 <= i < a@.len() ==> Scalar::Boolean(#[trigger] r@[i]) == compare_cell(
                op,
                Scalar::Boolean(a@[i]),
                Scalar::Boolean(b@[i]),
            ),
{
    let mut out: Vec<Option<bool>> = Vec::new();
    let mut i: usize = 0;
    while i < a.len()
        invariant
            i <= a@.len(),
            a@.len() == b@.len(),
            out@.len() == i,
            forall|k: int|
                0 <= k < i ==> Scalar::Boolean(#[trigger] out@[k]) == compare_cell(
                    op,
                    Scalar::Boolean(a@[k]),
                    Scalar::Boolean(b@[k]),
                ),
        decreases a@.len() - i,
    {
        let v = match (a[i], b[i]) {
            (Some(x), Some(y)) => {
                let xi: i64 = if x { 1 } else { 0 };
                let yi: i64 = if y { 1 } else { 0 };
                Some(holds_exec(op, order_i64(xi, yi)))
            },
            _ => None,
        };
        out.push(v);
        i = i + 1;
    }
    out
}

fn compare_i64s(op: Operator, a: &Vec<Option<i64>>, b: &Vec<Option<i64>>) -> (r: Vec<Option<bool>>)
    requires
        op.is_comparison(),
        a@.len() == b@.len(),
    ensures
        r@.len() == a@.len(),
        forall|i: int|
            0 <= i < a@.len() ==> Scalar::Boolean(#[trigger] r@[i]) == compare_cell(
                op,
                Scalar::Int64(a@[i]),
                Scalar::Int64(b@[i]),
            ),
{
    let mut out: Vec<Option<bool>> = Vec::new();
    let mut i: usize = 0;
    while i < a.len()
        invariant
            i <= a@.len(),
            a@.len() == b@.len(),
            out@.len() == i,
            forall|k: int|
                0 <= k < i ==> Scalar::Boolean(#[trigger] out@[k]) == compare_cell(
                    op,
                    Scalar::Int64(a@[k]),
                    Scalar::Int64(b@[k]),
                ),
        decreases a@.len() - i,
    {
        let v = match (a[i], b[i]) {
            (Some(x), Some(y)) => Some(holds_exec(op, order_i64(x, y))),
            _ => None,
        };
        out.push(v);
        i = i + 1;
    }
    out
}

fn compare_u64s(op: Operator, a: &Vec<Option<u64>>, b: &Vec<Option<u64>>, float: bool) -> (r: Vec<
    Option<bool>,
>)
    requires
        op.is_comparison(),
        a@.len() == b@.len(),
    ensures
        r@.len() == a@.len(),
        forall|i: int|
            0 <= i < a@.len() ==> Scalar::Boolean(#[trigger] r@[i]) == if float {
                compare_cell(op, Scalar::Float64(a@[i]), Scalar::Float64(b@[i]))
            } else {
                compare_cell(op, Scalar::UInt64(a@[i]), Scalar::UInt64(b@[i]))
            },
{
    let mut out: Vec<Option<bool>> = Vec::new();
    let mut i: usize = 0;
    while i < a.len()
        invariant
            i <= a@.len(),
            a@.len() == b@.len(),
            out@.len() == i,
            forall|k: int|
                0 <= k < i ==> Scalar::Boolean(#[trigger] out@[k]) == if float {
                    compare_cell(op, Scalar::Float64(a@[k]), Scalar::Float64(b@[k]))
                } else {
                    compare_cell(op, Scalar::UInt64(a@[k]), Scalar::UInt64(b@[k]))
                },
        decreases a@.len() - i,
    {
        let v = match (a[i], b[i]) {
            (Some(x), Some(y)) => {
                if float {
                    Some(holds_exec(op, order_u128(order_key(x) as u128, order_key(y) as u128)))
                } else {
                    Some(holds_exec(op, order_u128(x as u128, y as u128)))
                }
            },
            _ => None,
        };
        out.push(v);
        i = i + 1;
    }
    out
}

fn compare_strings(op: Operator, a: &Vec<Option<String>>, b: &Vec<Option<String>>) -> (r: Vec<
    Option<bool>,
>)
    requires
        op.is_comparison(),
        a@.len() == b@.len(),
    ensures
        r@.len() == a@.len(),
        forall|i: int|
            0 <= i < a@.len() ==> Scalar::Boolean(#[trigger] r@[i]) == compare_cell(
                op,
                Scalar::Utf8(a@[i]),
                Scalar::Utf8(b@[i]),
            ),
{
    let mut out: Vec<Option<bool>> = Vec::new();
    let mut i: usize = 0;
    while i < a.len()
        invariant
            i <= a@.len(),
            a@.len() == b@.len(),
            out@.len() == i,
            forall|k: int|
                0 <= k < i ==> Scalar::Boolean(#[trigger] out@[k]) == compare_cell(
                    op,
                    Scalar::Utf8(a@[k]),
                    Scalar::Utf8(b@[k]),
                ),
        decreases a@.len() - i,
    {
        let v = match (&a[i], &b[i]) {
            (Some(x), Some(y)) => Some(holds_exec(op, str_order(x.as_str(), y.as_str()))),
            _ => None,
        };
        out.push(v);
        i = i + 1;
    }
    out
}

fn logic_bools(op: Operator, a: &Vec<Option<bool>>, b: &Vec<Option<bool>>) -> (r: Vec<Option<bool>>)
    requires
        op.is_logical(),
        a@.len() == b@.len(),
    ensures
        r@.len() == a@.len(),
        forall|i: int|
            0 <= i < a@.len() ==> Scalar::Boolean(#[trigger] r@[i]) == logic_cell(
                op,
                Scalar::Boolean(a@[i]),
                Scalar::Boolean(b@[i]),
            ),
{
    let mut out: Vec<Option<bool>> = Vec::new();
    let mut i: usize = 0;
    while i < a.len()
        invariant
            i <= a@.len(),
            a@.len() == b@.len(),
            out@.len() == i,
            forall|k: int|
                0 <= k < i ==> Scalar::Boolean(#[trigger] out@[k]) == logic_cell(
                    op,
                    Scalar::Boolean(a@[k]),
                    Scalar::Boolean(b@[k]),
                ),
        decreases a@.len() - i,
    {
        let v = match (a[i], b[i]) {
            (Some(x), Some(y)) => Some(
                if op == Operator::And {
                    x && y
                } else {
                    x || y
                },
            ),
            _ => None,
        };
        out.push(v);
        i = i + 1;
    }
    out
}

fn i64_arith_exec(op: Operator, x: i64, y: i64) -> (r: Option<i64>)
    requires
        op.is_arithmetic(),
    ensures
        r == i64_arith(op, x, y),
{
    match op {
        Operator::Add => x.checked_add(y),
        Operator::Sub => x.checked_sub(y),
        Operator::Mul => x.checked_mul(y),
        Operator::Div => x.checked_div(y),
        _ => if y == 0 {
            None
        } else if x == i64::MIN && y == -1 {
            Some(0)
        } else {
            x.checked_rem(y)
        },
    }
}

fn u64_arith_exec(op: Operator, x: u64, y: u64) -> (r: Option<u64>)
    requires
        op.is_arithmetic(),
    ensures
        r == u64_arith(op, x, y),
{
    match op {
        Operator::Add => x.checked_add(y),
        Operator::Sub => x.checked_sub(y),
        Operator::Mul => x.checked_mul(y),
        Operator::Div => x.checked_div(y),
        _ => x.checked_rem(y),
    }
}

fn f64_arith_exec(op: Operator, x: u64, y: u64) -> (r: u64)
    requires
        op.is_arithmetic(),
    ensures
        r == f64_arith(op, x, y),
{
    match op {
        Operator::Add => float_add(x, y),
        Operator::Sub => float_sub(x, y),
        Operator::Mul => float_mul(x, y),
        Operator::Div => float_div(x, y),
        _ => float_rem(x, y),
    }
}

fn arith_i64s(op: Operator, a: &Vec<Option<i64>>, b: &Vec<Option<i64>>) -> (r: Option<
    Vec<Option<i64>>,
>)
    requires
        op.is_arithmetic(),
        a@.len() == b@.len(),
    ensures
        match r {
            Some(v) => v@.len() == a@.len() && forall|i: int|
                0 <= i < a@.len() ==> arith_cell(op, Scalar::Int64(a@[i]), Scalar::Int64(b@[i]))
                    == Some(Scalar::Int64(#[trigger] v@[i])),
            None => exists|i: int|
                0 <= i < a@.len() && arith_cell(op, Scalar::Int64(a@[i]), Scalar::Int64(b@[i]))
                    is None,
        },
{
    let mut out: Vec<Option<i64>> = Vec::new();
    let mut i: usize = 0;
    while i < a.len()
        invariant
            op.is_arithmetic(),
            i <= a@.len(),
            a@.len() == b@.len(),
            out@.len() == i,
            forall|k: int|
                0 <= k < i ==> arith_cell(op, Scalar::Int64(a@[k]), Scalar::Int64(b@[k])) == Some(
                    Scalar::Int64(#[trigger] out@[k]),
                ),
        decreases a@.len() - i,
    {
        match (a[i], b[i]) {
            (Some(x), Some(y)) => match i64_arith_exec(op, x, y) {
                Some(v) => out.push(Some(v)),
                None => {
                    return None;
                },
            },
            _ => out.push(None),
        }
        i = i + 1;
    }
    Some(out)
}

fn arith_u64s(op: Operator, a: &Vec<Option<u64>>, b: &Vec<Option<u64>>) -> (r: Option<
    Vec<Option<u64>>,
>)
    requires
        op.is_arithmetic(),
        a@.len() == b@.len(),
    ensures
        match r {
            Some(v) => v@.len() == a@.len() && forall|i: int|
                0 <= i < a@.len() ==> arith_cell(op, Scalar::UInt64(a@[i]), Scalar::UInt64(b@[i]))
                    == Some(Scalar::UInt64(#[trigger] v@[i])),
            None => exists|i: int|
                0 <= i < a@.len() && arith_cell(op, Scalar::UInt64(a@[i]), Scalar::UInt64(b@[i]))
                    is None,
        },
{
    let mut out: Vec<Option<u64>> = Vec::new();
    let mut i: usize = 0;
    while i < a.len()
        invariant
            op.is_arithmetic(),
            i <= a@.len(),
            a@.len() == b@.len(),
            out@.len() == i,
            forall|k: int|
                0 <= k < i ==> arith_cell(op, Scalar::UInt64(a@[k]), Scalar::UInt64(b@[k]))
                    == Some(Scalar::UInt64(#[trigger] out@[k])),
        decreases a@.len() - i,
    {
        match (a[i], b[i]) {
            (Some(x), Some(y)) => match u64_arith_exec(op, x, y) {
                Some(v) => out.push(Some(v)),
                None => {
                    return None;
                },
            },
            _ => out.push(None),
        }
        i = i + 1;
    }
    Some(out)
}

fn arith_f64s(op: Operator, a: &Vec<Option<u64>>, b: &Vec<Option<u64>>) -> (r: Vec<Option<u64>>)
    requires
        op.is_arithmetic(),
        a@.len() == b@.len(),
    ensures
        r@.len() == a@.len(),
        forall|i: int|
            0 <= i < a@.len() ==> arith_cell(op, Scalar::Float64(a@[i]), Scalar::Float64(b@[i]))
                == Some(Scalar::Float64(#[trigger] r@[i])),
{
    let mut out: Vec<Option<u64>> = Vec::new();
    let mut i: usize = 0;
    while i < a.len()
        invariant
            op.is_arithmetic(),
            i <= a@.len(),
            a@.len() == b@.len(),
            out@.len() == i,
            forall|k: int|
                0 <= k < i ==> arith_cell(op, Scalar::Float64(a@[k]), Scalar::Float64(b@[k]))
                    == Some(Scalar::Float64(#[trigger] out@[k])),
        decreases a@.len() - i,
    {
        match (a[i], b[i]) {
            (Some(x), Some(y)) => out.push(Some(f64_arith_exec(op, x, y))),
            _ => out.push(None),
        }
        i = i + 1;
    }
    out
}

/// The message of an operand type mismatch.
pub open spec fn type_message(op: Operator, l: DataType, r: DataType) -> Seq<char> {
    "Cannot evaluate binary expression "@ + op.symbol_spec() + " with types "@ + l.name_spec()
        + " and "@ + r.name_spec()
}

/// The error of an operand type mismatch.
pub fn type_error(op: Operator, l: DataType, r: DataType) -> (e: Error)
    ensures
        e matches Error::IntervalError(m) && m@ == type_message(op, l, r),
{
    let mut m = "Cannot evaluate binary expression ".to_string();
    m.append(op.symbol().as_str());
    m.append(" with types ");
    m.append(l.name().as_str());
    m.append(" and ");
    m.append(r.name().as_str());
    assert(m@ =~= type_message(op, l, r));
    Error::IntervalError(m)
}

/// Evaluates `l op r` row by row. The operands must have one type: any
/// type for a comparison, Boolean for `and` / `or`, and Int64, UInt64 or
/// Float64 for arithmetic; otherwise the result is an `IntervalError`.
/// Integer arithmetic that overflows or divides by zero gives an
/// `ArrowError`. A null operand gives a null.
pub fn evaluate_binary(op: Operator, l: &ColumnVector, r: &ColumnVector) -> (res: Result<
    ColumnVector,
    Error,
>)
    requires
        l.len_spec() == r.len_spec(),
    ensures
        binary_result(op, *l, *r, res),
{
    let lt = l.data_type();
    let rt = r.data_type();
    if lt != rt {
        return Err(type_error(op, lt, rt));
    }
    let n = l.len();
    if op == Operator::Eq || op == Operator::Neq || op == Operator::Lt || op == Operator::LtEq
        || op == Operator::Gt || op == Operator::GtEq {
        let out = match (l, r) {
            (ColumnVector::Null(_), ColumnVector::Null(_)) => repeat_copy(None, n),
            (ColumnVector::Boolean(a), ColumnVector::Boolean(b)) => compare_bools(op, a, b),
            (ColumnVector::Int64(a), ColumnVector::Int64(b)) => compare_i64s(op, a, b),
            (ColumnVector::UInt64(a), ColumnVector::UInt64(b)) => compare_u64s(op, a, b, false),
            (ColumnVector::Float64(a), ColumnVector::Float64(b)) => compare_u64s(op, a, b, true),
            (ColumnVector::Utf8(a), ColumnVector::Utf8(b)) => compare_strings(op, a, b),
            _ => {
                return Err(type_error(op, lt, rt));
            },
        };
        let c = ColumnVector::Boolean(out);
        assert(c.cells() =~= Seq::new(l.len_spec(), |i: int| binary_cell(op, l.cell(i), r.cell(i))));
        return Ok(c);
    }
    if op == Operator::And || op == Operator::Or {
        match (l, r) {
            (ColumnVector::Boolean(a), ColumnVector::Boolean(b)) => {
                let c = ColumnVector::Boolean(logic_bools(op, a, b));
                assert(c.cells() =~= Seq::new(
                    l.len_spec(),
                    |i: int| binary_cell(op, l.cell(i), r.cell(i)),
                ));
                return Ok(c);
            },
            _ => {
                return Err(type_error(op, lt, rt));
            },
        }
    }
    match (l, r) {
        (ColumnVector::Int64(a), ColumnVector::Int64(b)) => match arith_i64s(op, a, b) {
            Some(v) => {
                let c = ColumnVector::Int64(v);
                assert forall|i: int| 0 <= i < l.len_spec() implies (#[trigger] arith_cell(
                    op,
                    l.cell(i),
                    r.cell(i),
                )) is Some by {
                    assert(v@[i] == v@[i]);
                }
                assert(c.cells() =~= Seq::new(
                    l.len_spec(),
                    |i: int| binary_cell(op, l.cell(i), r.cell(i)),
                ));
                Ok(c)
            },
            None => {
                proof {
                    let w = choose|i: int|
                        0 <= i < a@.len() && arith_cell(
                            op,
                            Scalar::Int64(a@[i]),
                            Scalar::Int64(b@[i]),
                        ) is None;
                    assert(arith_cell(op, l.cell(w), r.cell(w)) is None);
                }
                Err(Error::ArrowError("Arithmetic overflow or division by zero".to_string()))
            },
        },
        (ColumnVector::UInt64(a), ColumnVector::UInt64(b)) => match arith_u64s(op, a, b) {
            Some(v) => {
                let c = ColumnVector::UInt64(v);
                assert forall|i: int| 0 <= i < l.len_spec() implies (#[trigger] arith_cell(
                    op,
                    l.cell(i),
                    r.cell(i),
                )) is Some by {
                    assert(v@[i] == v@[i]);
                }
                assert(c.cells() =~= Seq::new(
                    l.len_spec(),
                    |i: int| binary_cell(op, l.cell(i), r.cell(i)),
                ));
                Ok(c)
            },
            None => {
                proof {
                    let w = choose|i: int|
                        0 <= i < a@.len() && arith_cell(
                            op,
                            Scalar::UInt64(a@[i]),
                            Scalar::UInt64(b@[i]),
                        ) is None;
                    assert(arith_cell(op, l.cell(w), r.cell(w)) is None);
                }
                Err(Error::ArrowError("Arithmetic overflow or division by zero".to_string()))
            },
        },
        (ColumnVector::Float64(a), ColumnVector::Float64(b)) => {
            let v = arith_f64s(op, a, b);
            let c = ColumnVector::Float64(v);
            assert forall|i: int| 0 <= i < l.len_spec() implies (#[trigger] arith_cell(
                op,
                l.cell(i),
                r.cell(i),
            )) is Some by {
                assert(v@[i] == v@[i]);
            }
            assert(c.cells() =~= Seq::new(
                l.len_spec(),
                |i: int| binary_cell(op, l.cell(i), r.cell(i)),
            ));
            Ok(c)
        },
        _ => Err(type_error(op, lt, rt)),
    }
}

} // verus!
