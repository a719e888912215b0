use vstd::prelude::*;

use crate::array::{repeat_copy, repeat_strings, ColumnVector};
use crate::datatype::{DataType, Field};
use crate::floats::{float_text, float_text_of};

verus! {

/// A single typed value; `None` in a payload stands for a null of that type.
/// Float values are held as their IEEE-754 bit patterns.
#[derive(Debug)]
pub enum Scalar {
    Null,
    Boolean(Option<bool>),
    Float64(Option<u64>),
    Int64(Option<i64>),
    UInt64(Option<u64>),
    Utf8(Option<String>),
}

/// The character of a decimal digit.
pub open spec fn digit_char(d: int) -> char {
    if d == 0 {
        '0'
    } else if d == 1 {
        '1'
    } else if d == 2 {
        '2'
    } else if d == 3 {
        '3'
    } else if d == 4 {
        '4'
    } else if d == 5 {
        '5'
    } else if d == 6 {
        '6'
    } else if d == 7 {
        '7'
    } else if d == 8 {
        '8'
    } else {
        '9'
    }
}

/// The decimal digits of `n`, most significant first, without leading zeros.
pub open spec fn decimal(n: nat) -> Seq<char>
    decreases n,
{
    if n < 10 {
        seq![digit_char(n as int)]
    } else {
        decimal(n / 10).push(digit_char((n % 10) as int))
    }
}

/// The decimal text of a signed integer: a `-` before the digits of a
/// negative value.
pub open spec fn int_text_of(v: i64) -> Seq<char> {
    if v < 0 {
        seq!['-'] + decimal((-(v as int)) as nat)
    } else {
        decimal(v as nat)
    }
}

/// The decimal text of an unsigned integer.
pub open spec fn uint_text_of(v: u64) -> Seq<char> {
    decimal(v as nat)
}

fn digit_str(d: u64) -> (r: &'static str)
    requires
        d < 10,
    ensures
        r@ == seq![digit_char(d as int)],
{
    proof {
        reveal_strlit("0");
        reveal_strlit("1");
        reveal_strlit("2");
        reveal_strlit("3");
        reveal_strlit("4");
        reveal_strlit("5");
        reveal_strlit("6");
        reveal_strlit("7");
        reveal_strlit("8");
        reveal_strlit("9");
    }
    let r = match d {
        0 => "0",
        1 => "1",
        2 => "2",
        3 => "3",
        4 => "4",
        5 => "5",
        6 => "6",
        7 => "7",
        8 => "8",
        _ => "9",
    };
    assert(r@ =~= seq![digit_char(d as int)]);
    r
}

/// The decimal digits of `n`.
fn decimal_string(n: u64) -> (r: String)
    ensures
        r@ == decimal(n as nat),
    decreases n,
{
    if n < 10 {
        let mut s = String::new();
        s.append(digit_str(n));
        assert(s@ =~= decimal(n as nat));
        s
    } else {
        let mut s = decimal_string(n / 10);
        s.append(digit_str(n % 10));
        assert(s@ =~= decimal(n as nat));
        s
    }
}

/// The decimal text of `v`.
pub(crate) fn int_text(v: i64) -> (r: String)
    ensures
        r@ == int_text_of(v),
{
    if v < 0 {
        let m: u64 = if v == i64::MIN {
            0x8000_0000_0000_0000u64
        } else {
            (-v) as u64
        };
        let mut s = String::new();
        proof {
            reveal_strlit("-");
        }
        s.append("-");
        s.append(decimal_string(m).as_str());
        assert(s@ =~= int_text_of(v));
        s
    } else {
        decimal_string(v as u64)
    }
}

/// The decimal text of `v`.
pub(crate) fn uint_text(v: u64) -> (r: String)
    ensures
        r@ == uint_text_of(v),
{
    decimal_string(v)
}

impl Clone for Scalar {
    fn clone(&self) -> (r: Self)
        ensures
            r == *self,
    {
        match self {
            Scalar::Null => Scalar::Null,
            Scalar::Boolean(v) => Scalar::Boolean(*v),
            Scalar::Float64(v) => Scalar::Float64(*v),
            Scalar::Int64(v) => Scalar::Int64(*v),
            Scalar::UInt64(v) => Scalar::UInt64(*v),
            Scalar::Utf8(None) => Scalar::Utf8(None),
            Scalar::Utf8(Some(s)) => Scalar::Utf8(Some(s.clone())),
        }
    }
}

impl Scalar {
    pub open spec fn data_type_spec(&self) -> DataType {
        match self {
            Scalar::Null => DataType::Null,
            Scalar::Boolean(_) => DataType::Boolean,
            Scalar::Float64(_) => DataType::Float64,
            Scalar::Int64(_) => DataType::Int64,
            Scalar::UInt64(_) => DataType::UInt64,
            Scalar::Utf8(_) => DataType::Utf8,
        }
    }

    /// The canonical text of the value; a null reads `null`.
    pub open spec fn text_spec(&self) -> Seq<char> {
        match self {
            Scalar::Boolean(Some(b)) => if *b { "true"@ } else { "false"@ },
            Scalar::Float64(Some(v)) => float_text_of(*v),
            Scalar::Int64(Some(v)) => int_text_of(*v),
            Scalar::UInt64(Some(v)) => uint_text_of(*v),
            Scalar::Utf8(Some(s)) => s@,
            _ => "null"@,
        }
    }

    /// `c` holds `n` copies of this value.
    pub open spec fn repeated_in(&self, c: ColumnVector, n: nat) -> bool {
        match (self, c) {
            (Scalar::Null, ColumnVector::Null(k)) => k == n,
            (Scalar::Boolean(x), ColumnVector::Boolean(v)) => v@ == Seq::new(n, |_i: int| *x),
            (Scalar::Float64(x), ColumnVector::Float64(v)) => v@ == Seq::new(n, |_i: int| *x),
            (Scalar::Int64(x), ColumnVector::Int64(v)) => v@ == Seq::new(n, |_i: int| *x),
            (Scalar::UInt64(x), ColumnVector::UInt64(v)) => v@ == Seq::new(n, |_i: int| *x),
            (Scalar::Utf8(x), ColumnVector::Utf8(v)) => v@ == Seq::new(n, |_i: int| *x),
            _ => false,
        }
    }

    pub fn data_type(&self) -> (r: DataType)
        ensures
            r == self.data_type_spec(),
    {
        match self {
            Scalar::Null => DataType::Null,
            Scalar::Boolean(_) => DataType::Boolean,
            Scalar::Float64(_) => DataType::Float64,
            Scalar::Int64(_) => DataType::Int64,
            Scalar::UInt64(_) => DataType::UInt64,
            Scalar::Utf8(_) => DataType::Utf8,
        }
    }

    pub fn to_string(&self) -> (r: String)
        ensures
            r@ == self.text_spec(),
    {
        match self {
            Scalar::Boolean(Some(b)) => if *b {
                "true".to_string()
            } else {
                "false".to_string()
            },
            Scalar::Float64(Some(v)) => float_text(*v),
            Scalar::Int64(Some(v)) => int_text(*v),
            Scalar::UInt64(Some(v)) => uint_text(*v),
            Scalar::Utf8(Some(s)) => s.clone(),
            _ => "null".to_string(),
        }
    }

    /// The field of a literal: named by its text, typed by its value, and
    /// never null.
    pub fn to_field(&self) -> (r: Field)
        ensures
            r.name@ == self.text_spec(),
            r.data_type == self.data_type_spec(),
            !r.nullable,
    {
        Field { name: self.to_string(), data_type: self.data_type(), nullable: false }
    }

    /// Materializes the value as a column of `size` rows.
    pub fn to_array(&self, size: usize) -> (r: ColumnVector)
        ensures
            self.repeated_in(r, size as nat),
            r.len_spec() == size,
            r.data_type_spec() == self.data_type_spec(),
    {
        match self {
            Scalar::Null => ColumnVector::Null(size),
            Scalar::Boolean(v) => ColumnVector::Boolean(repeat_copy(*v, size)),
            Scalar::Float64(v) => ColumnVector::Float64(repeat_copy(*v, size)),
            Scalar::Int64(v) => ColumnVector::Int64(repeat_copy(*v, size)),
            Scalar::UInt64(v) => ColumnVector::UInt64(repeat_copy(*v, size)),
            Scalar::Utf8(v) => ColumnVector::Utf8(repeat_strings(v, size)),
        }
    }
}

} // verus!
