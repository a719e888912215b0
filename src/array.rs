use vstd::prelude::*;

use crate::datatype::DataType;
use crate::scalar::Scalar;

verus! {

/// A materialized column: one optional value per row, `None` being null.
/// Float values are held as their IEEE-754 bit patterns.
#[derive(Debug)]
pub enum ColumnVector {
    /// A column of the null type, of the given length.
    Null(usize),
    Boolean(Vec<Option<bool>>),
    Int64(Vec<Option<i64>>),
    UInt64(Vec<Option<u64>>),
    Float64(Vec<Option<u64>>),
    Utf8(Vec<Option<String>>),
}

/// The values of `v` kept where `p` is true; where `p` is null a null takes
/// the row's place.
pub open spec fn filter_spec<T>(v: Seq<Option<T>>, p: Seq<Option<bool>>) -> Seq<Option<T>>
    decreases v.len(),
{
    if v.len() == 0 {
        Seq::empty()
    } else {
        let rest = filter_spec(v.drop_last(), p);
        let i = v.len() - 1;
        match p[i] {
            Some(true) => rest.push(v[i]),
            Some(false) => rest,
            None => rest.push(None),
        }
    }
}

/// The values of `v` at the positions `idx`, in that order.
pub open spec fn take_spec<T>(v: Seq<T>, idx: Seq<usize>) -> Seq<T> {
    Seq::new(idx.len(), |i: int| v[idx[i] as int])
}

pub fn repeat_copy<T: Copy>(x: T, n: usize) -> (r: Vec<T>)
    ensures
        r@ == Seq::new(n as nat, |_i: int| x),
{
    let mut out: Vec<T> = Vec::new();
    let mut i: usize = 0;
    while i < n
        invariant
            i <= n,
            out@ == Seq::new(i as nat, |_i: int| x),
        decreases n - i,
    {
        out.push(x);
        i = i + 1;
        assert(out@ =~= Seq::new(i as nat, |_i: int| x));
    }
    out
}

fn copy_text(x: &Option<String>) -> (r: Option<String>)
    ensures
        r == *x,
{
    match x {
        Some(s) => Some(s.clone()),
        None => None,
    }
}

pub fn repeat_strings(x: &Option<String>, n: usize) -> (r: Vec<Option<String>>)
    ensures
        r@ == Seq::new(n as nat, |_i: int| *x),
{
    let mut out: Vec<Option<String>> = Vec::new();
    let mut i: usize = 0;
    while i < n
        invariant
            i <= n,
            out@ == Seq::new(i as nat, |_i: int| *x),
        decreases n - i,
    {
        out.push(copy_text(x));
        i = i + 1;
        assert(out@ =~= Seq::new(i as nat, |_i: int| *x));
    }
    out
}

pub fn take_copy<T: Copy>(v: &Vec<T>, idx: &Vec<usize>) -> (r: Vec<T>)
    requires
        forall|i: int| 0 <= i < idx@.len() ==> idx@[i] < v@.len(),
    ensures
        r@ == take_spec(v@, idx@),
{
    let mut out: Vec<T> = Vec::new();
    let mut i: usize = 0;
    while i < idx.len()
        invariant
            i <= idx@.len(),
            forall|k: int| 0 <= k < idx@.len() ==> idx@[k] < v@.len(),
            out@ == take_spec(v@, idx@.subrange(0, i as int)),
        decreases idx@.len() - i,
    {
        out.push(v[idx[i]]);
        i = i + 1;
        assert(out@ =~= take_spec(v@, idx@.subrange(0, i as int)));
    }
    assert(idx@.subrange(0, idx@.len() as int) =~= idx@);
    out
}

pub fn take_strings(v: &Vec<Option<String>>, idx: &Vec<usize>) -> (r: Vec<Option<String>>)
    requires
        forall|i: int| 0 <= i < idx@.len() ==> idx@[i] < v@.len(),
    ensures
        r@ == take_spec(v@, idx@),
{
    let mut out: Vec<Option<String>> = Vec::new();
    let mut i: usize = 0;
    while i < idx.len()
        invariant
            i <= idx@.len(),
            forall|k: int| 0 <= k < idx@.len() ==> idx@[k] < v@.len(),
            out@ == take_spec(v@, idx@.subrange(0, i as int)),
        decreases idx@.len() - i,
    {
        out.push(copy_text(&v[idx[i]]));
        i = i + 1;
        assert(out@ =~= take_spec(v@, idx@.subrange(0, i as int)));
    }
    assert(idx@.subrange(0, idx@.len() as int) =~= idx@);
    out
}

pub fn filter_copy<T: Copy>(v: &Vec<Option<T>>, p: &Vec<Option<bool>>) -> (r: Vec<Option<T>>)
    requires
        p@.len() == v@.len(),
    ensures
        r@ == filter_spec(v@, p@),
{
    let mut out: Vec<Option<T>> = Vec::new();
    let mut i: usize = 0;
    while i < v.len()
        invariant
            i <= v@.len(),
            p@.len() == v@.len(),
            out@ == filter_spec(v@.subrange(0, i as int), p@),
        decreases v@.len() - i,
    {
        let ghost prefix = v@.subrange(0, i as int + 1);
        assert(prefix.drop_last() =~= v@.subrange(0, i as int));
        match p[i] {
            Some(true) => out.push(v[i]),
            Some(false) => {},
            None => out.push(None),
        }
        i = i + 1;
    }
    assert(v@.subrange(0, v@.len() as int) =~= v@);
    out
}

pub fn filter_strings(v: &Vec<Option<String>>, p: &Vec<Option<bool>>) -> (r: Vec<Option<String>>)
    requires
        p@.len() == v@.len(),
    ensures
        r@ == filter_spec(v@, p@),
{
    let mut out: Vec<Option<String>> = Vec::new();
    let mut i: usize = 0;
    while i < v.len()
        invariant
            i <= v@.len(),
            p@.len() == v@.len(),
            out@ == filter_spec(v@.subrange(0, i as int), p@),
        decreases v@.len() - i,
    {
        let ghost prefix = v@.subrange(0, i as int + 1);
        assert(prefix.drop_last() =~= v@.subrange(0, i as int));
        match p[i] {
            Some(true) => out.push(copy_text(&v[i])),
            Some(false) => {},
            None => out.push(None),
        }
        i = i + 1;
    }
    assert(v@.subrange(0, v@.len() as int) =~= v@);
    out
}

pub fn append_copy<T: Copy>(out: &mut Vec<T>, v: &Vec<T>)
    ensures
        final(out)@ == old(out)@ + v@,
{
    let mut i: usize = 0;
    while i < v.len()
        invariant
            i <= v@.len(),
            out@ == old(out)@ + v@.subrange(0, i as int),
        decreases v@.len() - i,
    {
        out.push(v[i]);
        i = i + 1;
        assert(out@ =~= old(out)@ + v@.subrange(0, i as int));
    }
    assert(v@.subrange(0, v@.len() as int) =~= v@);
}

pub fn append_strings(out: &mut Vec<Option<String>>, v: &Vec<Option<String>>)
    ensures
        final(out)@ == old(out)@ + v@,
{
    let mut i: usize = 0;
    while i < v.len()
        invariant
            i <= v@.len(),
            out@ == old(out)@ + v@.subrange(0, i as int),
        decreases v@.len() - i,
    {
        out.push(copy_text(&v[i]));
        i = i + 1;
        assert(out@ =~= old(out)@ + v@.subrange(0, i as int));
    }
    assert(v@.subrange(0, v@.len() as int) =~= v@);
}

pub fn copy_values<T: Copy>(v: &Vec<T>) -> (r: Vec<T>)
    ensures
        r@ == v@,
{
    let mut o: Vec<T> = Vec::new();
    append_copy(&mut o, v);
    assert(o@ =~= v@);
    o
}

/// Appending columns appends their values.
pub proof fn lemma_appended_cells(a: ColumnVector, b: ColumnVector, c: ColumnVector)
    requires
        a.appended_to(b, c),
    ensures
        c.cells() =~= a.cells() + b.cells(),
        c.len_spec() == a.len_spec() + b.len_spec(),
        c.data_type_spec() == a.data_type_spec(),
{
}

impl ColumnVector {
    pub open spec fn len_spec(&self) -> nat {
        match self {
            ColumnVector::Null(n) => *n as nat,
            ColumnVector::Boolean(v) => v@.len(),
            ColumnVector::Int64(v) => v@.len(),
            ColumnVector::UInt64(v) => v@.len(),
            ColumnVector::Float64(v) => v@.len(),
            ColumnVector::Utf8(v) => v@.len(),
        }
    }

    pub open spec fn data_type_spec(&self) -> DataType {
        match self {
            ColumnVector::Null(_) => DataType::Null,
            ColumnVector::Boolean(_) => DataType::Boolean,
            ColumnVector::Int64(_) => DataType::Int64,
            ColumnVector::UInt64(_) => DataType::UInt64,
            ColumnVector::Float64(_) => DataType::Float64,
            ColumnVector::Utf8(_) => DataType::Utf8,
        }
    }

    /// The two columns hold the same values.
    pub open spec fn same_as(&self, o: ColumnVector) -> bool {
        match (self, o) {
            (ColumnVector::Null(a), ColumnVector::Null(b)) => *a == b,
            (ColumnVector::Boolean(a), ColumnVector::Boolean(b)) => a@ == b@,
            (ColumnVector::Int64(a), ColumnVector::Int64(b)) => a@ == b@,
            (ColumnVector::UInt64(a), ColumnVector::UInt64(b)) => a@ == b@,
            (ColumnVector::Float64(a), ColumnVector::Float64(b)) => a@ == b@,
            (ColumnVector::Utf8(a), ColumnVector::Utf8(b)) => a@ == b@,
            _ => false,
        }
    }

    /// The value in row `i`, as a scalar of the column's type.
    pub open spec fn cell(&self, i: int) -> Scalar {
        match self {
            ColumnVector::Null(_) => Scalar::Null,
            ColumnVector::Boolean(v) => Scalar::Boolean(v@[i]),
            ColumnVector::Int64(v) => Scalar::Int64(v@[i]),
            ColumnVector::UInt64(v) => Scalar::UInt64(v@[i]),
            ColumnVector::Float64(v) => Scalar::Float64(v@[i]),
            ColumnVector::Utf8(v) => Scalar::Utf8(v@[i]),
        }
    }

    /// The values of the column, row by row.
    pub open spec fn cells(&self) -> Seq<Scalar> {
        Seq::new(self.len_spec(), |i: int| self.cell(i))
    }

    /// `r` holds the rows of `self` selected by the predicate `p`.
    pub open spec fn filtered_to(&self, p: Seq<Option<bool>>, r: ColumnVector) -> bool {
        match (self, r) {
            (ColumnVector::Null(_), ColumnVector::Null(n)) => n == filter_spec(
                Seq::new(self.len_spec(), |_i: int| None::<bool>),
                p,
            ).len(),
            (ColumnVector::Boolean(a), ColumnVector::Boolean(b)) => b@ == filter_spec(a@, p),
            (ColumnVector::Int64(a), ColumnVector::Int64(b)) => b@ == filter_spec(a@, p),
            (ColumnVector::UInt64(a), ColumnVector::UInt64(b)) => b@ == filter_spec(a@, p),
            (ColumnVector::Float64(a), ColumnVector::Float64(b)) => b@ == filter_spec(a@, p),
            (ColumnVector::Utf8(a), ColumnVector::Utf8(b)) => b@ == filter_spec(a@, p),
            _ => false,
        }
    }

    /// `r` holds the rows of `self` at the positions `idx`.
    pub open spec fn taken_to(&self, idx: Seq<usize>, r: ColumnVector) -> bool {
        match (self, r) {
            (ColumnVector::Null(_), ColumnVector::Null(n)) => n == idx.len(),
            (ColumnVector::Boolean(a), ColumnVector::Boolean(b)) => b@ == take_spec(a@, idx),
            (ColumnVector::Int64(a), ColumnVector::Int64(b)) => b@ == take_spec(a@, idx),
            (ColumnVector::UInt64(a), ColumnVector::UInt64(b)) => b@ == take_spec(a@, idx),
            (ColumnVector::Float64(a), ColumnVector::Float64(b)) => b@ == take_spec(a@, idx),
            (ColumnVector::Utf8(a), ColumnVector::Utf8(b)) => b@ == take_spec(a@, idx),
            _ => false,
        }
    }

    /// `r` holds the rows of `self` followed by those of `o`.
    pub open spec fn appended_to(&self, o: ColumnVector, r: ColumnVector) -> bool {
        match (self, o, r) {
            (ColumnVector::Null(a), ColumnVector::Null(b), ColumnVector::Null(c)) => c == a + b,
            (ColumnVector::Boolean(a), ColumnVector::Boolean(b), ColumnVector::Boolean(c)) => c@
                == a@ + b@,
            (ColumnVector::Int64(a), ColumnVector::Int64(b), ColumnVector::Int64(c)) => c@ == a@
                + b@,
            (ColumnVector::UInt64(a), ColumnVector::UInt64(b), ColumnVector::UInt64(c)) => c@
                == a@ + b@,
            (ColumnVector::Float64(a), ColumnVector::Float64(b), ColumnVector::Float64(c)) => c@
                == a@ + b@,
            (ColumnVector::Utf8(a), ColumnVector::Utf8(b), ColumnVector::Utf8(c)) => c@ == a@
                + b@,
            _ => false,
        }
    }

    pub fn len(&self) -> (r: usize)
        ensures
            r == self.len_spec(),
    {
        match self {
            ColumnVector::Null(n) => *n,
            ColumnVector::Boolean(v) => v.len(),
            ColumnVector::Int64(v) => v.len(),
            ColumnVector::UInt64(v) => v.len(),
            ColumnVector::Float64(v) => v.len(),
            ColumnVector::Utf8(v) => v.len(),
        }
    }

    pub fn data_type(&self) -> (r: DataType)
        ensures
            r == self.data_type_spec(),
    {
        match self {
            ColumnVector::Null(_) => DataType::Null,
            ColumnVector::Boolean(_) => DataType::Boolean,
            ColumnVector::Int64(_) => DataType::Int64,
            ColumnVector::UInt64(_) => DataType::UInt64,
            ColumnVector::Float64(_) => DataType::Float64,
            ColumnVector::Utf8(_) => DataType::Utf8,
        }
    }

    /// The value in row `i`.
    pub fn get(&self, i: usize) -> (r: Scalar)
        requires
            i < self.len_spec(),
        ensures
            r == self.cell(i as int),
    {
        match self {
            ColumnVector::Null(_) => Scalar::Null,
            ColumnVector::Boolean(v) => Scalar::Boolean(v[i]),
            ColumnVector::Int64(v) => Scalar::Int64(v[i]),
            ColumnVector::UInt64(v) => Scalar::UInt64(v[i]),
            ColumnVector::Float64(v) => Scalar::Float64(v[i]),
            ColumnVector::Utf8(v) => Scalar::Utf8(copy_text(&v[i])),
        }
    }

    /// The column with one value of its type appended.
    pub fn push_scalar(self, s: Scalar) -> (r: ColumnVector)
        requires
            s.data_type_spec() == self.data_type_spec(),
            self.len_spec() < usize::MAX,
        ensures
            r.cells() == self.cells().push(s),
            r.len_spec() == self.len_spec() + 1,
            r.data_type_spec() == self.data_type_spec(),
    {
        let ghost before = self;
        let r = match (self, s) {
            (ColumnVector::Null(n), Scalar::Null) => ColumnVector::Null(n + 1),
            (ColumnVector::Boolean(mut v), Scalar::Boolean(x)) => {
                v.push(x);
                ColumnVector::Boolean(v)
            },
            (ColumnVector::Int64(mut v), Scalar::Int64(x)) => {
                v.push(x);
                ColumnVector::Int64(v)
            },
            (ColumnVector::UInt64(mut v), Scalar::UInt64(x)) => {
                v.push(x);
                ColumnVector::UInt64(v)
            },
            (ColumnVector::Float64(mut v), Scalar::Float64(x)) => {
                v.push(x);
                ColumnVector::Float64(v)
            },
            (ColumnVector::Utf8(mut v), Scalar::Utf8(x)) => {
                v.push(x);
                ColumnVector::Utf8(v)
            },
            (c, _) => c,
        };
        assert(r.cells() =~= before.cells().push(s));
        r
    }

    /// An empty column of the given type.
    pub fn empty(t: DataType) -> (r: ColumnVector)
        ensures
            r.len_spec() == 0,
            r.data_type_spec() == t,
    {
        match t {
            DataType::Null => ColumnVector::Null(0),
            DataType::Boolean => ColumnVector::Boolean(Vec::new()),
            DataType::Int64 => ColumnVector::Int64(Vec::new()),
            DataType::UInt64 => ColumnVector::UInt64(Vec::new()),
            DataType::Float64 => ColumnVector::Float64(Vec::new()),
            DataType::Utf8 => ColumnVector::Utf8(Vec::new()),
        }
    }

    /// A copy of the column.
    pub fn copy(&self) -> (r: ColumnVector)
        ensures
            self.same_as(r),
            r.len_spec() == self.len_spec(),
            r.data_type_spec() == self.data_type_spec(),
    {
        match self {
            ColumnVector::Null(n) => ColumnVector::Null(*n),
            ColumnVector::Boolean(v) => ColumnVector::Boolean(copy_values(v)),
            ColumnVector::Int64(v) => ColumnVector::Int64(copy_values(v)),
            ColumnVector::UInt64(v) => ColumnVector::UInt64(copy_values(v)),
            ColumnVector::Float64(v) => ColumnVector::Float64(copy_values(v)),
            ColumnVector::Utf8(v) => {
                let mut o: Vec<Option<String>> = Vec::new();
                append_strings(&mut o, v);
                assert(o@ =~= v@);
                ColumnVector::Utf8(o)
            },
        }
    }

    /// Appends the rows of `o`, which must be of the same type; a null
    /// column's length must not overflow.
    pub fn append(&mut self, o: &ColumnVector)
        requires
            old(self).data_type_spec() == o.data_type_spec(),
            old(self).len_spec() + o.len_spec() <= usize::MAX,
        ensures
            old(self).appended_to(*o, *final(self)),
            final(self).len_spec() == old(self).len_spec() + o.len_spec(),
            final(self).data_type_spec() == old(self).data_type_spec(),
    {
        match (self, o) {
            (ColumnVector::Null(a), ColumnVector::Null(b)) => {
                *a = *a + *b;
            },
            (ColumnVector::Boolean(a), ColumnVector::Boolean(b)) => append_copy(a, b),
            (ColumnVector::Int64(a), ColumnVector::Int64(b)) => append_copy(a, b),
            (ColumnVector::UInt64(a), ColumnVector::UInt64(b)) => append_copy(a, b),
            (ColumnVector::Float64(a), ColumnVector::Float64(b)) => append_copy(a, b),
            (ColumnVector::Utf8(a), ColumnVector::Utf8(b)) => append_strings(a, b),
            _ => {},
        }
    }

    /// The rows at the positions `idx`, in that order.
    pub fn take(&self, idx: &Vec<usize>) -> (r: ColumnVector)
        requires
            forall|i: int| 0 <= i < idx@.len() ==> idx@[i] < self.len_spec(),
        ensures
            self.taken_to(idx@, r),
            r.len_spec() == idx@.len(),
            r.data_type_spec() == self.data_type_spec(),
    {
        match self {
            ColumnVector::Null(_) => ColumnVector::Null(idx.len()),
            ColumnVector::Boolean(v) => ColumnVector::Boolean(take_copy(v, idx)),
            ColumnVector::Int64(v) => ColumnVector::Int64(take_copy(v, idx)),
            ColumnVector::UInt64(v) => ColumnVector::UInt64(take_copy(v, idx)),
            ColumnVector::Float64(v) => ColumnVector::Float64(take_copy(v, idx)),
            ColumnVector::Utf8(v) => ColumnVector::Utf8(take_strings(v, idx)),
        }
    }

    /// The rows where `p` is true, with a null where `p` is null.
    pub fn filter(&self, p: &Vec<Option<bool>>) -> (r: ColumnVector)
        requires
            p@.len() == self.len_spec(),
        ensures
            self.filtered_to(p@, r),
            r.data_type_spec() == self.data_type_spec(),
    {
        match self {
            ColumnVector::Null(n) => {
                let nulls: Vec<Option<bool>> = repeat_copy(None, *n);
                let kept = filter_copy(&nulls, p);
                ColumnVector::Null(kept.len())
            },
            ColumnVector::Boolean(v) => ColumnVector::Boolean(filter_copy(v, p)),
            ColumnVector::Int64(v) => ColumnVector::Int64(filter_copy(v, p)),
            ColumnVector::UInt64(v) => ColumnVector::UInt64(filter_copy(v, p)),
            ColumnVector::Float64(v) => ColumnVector::Float64(filter_copy(v, p)),
            ColumnVector::Utf8(v) => ColumnVector::Utf8(filter_strings(v, p)),
        }
    }
}

} // verus!
