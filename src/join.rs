use vstd::prelude::*;

use crate::array::ColumnVector;
use crate::batch::RecordBatch;
use crate::datatype::Schema;
use crate::error::Error;

verus! {

/// The key `k` is not null and equals one of `others`.
pub open spec fn key_in(k: Option<i64>, others: Seq<Option<i64>>) -> bool {
    k is Some && exists|j: int| 0 <= j < others.len() && others[j] == k
}

/// Row `l` of the left side matches on every key pair.
pub open spec fn left_keeps(keys: Seq<(Seq<Option<i64>>, Seq<Option<i64>>)>, l: int) -> bool {
    forall|p: int| 0 <= p < keys.len() ==> key_in((#[trigger] keys[p]).0[l], keys[p].1)
}

/// Row `r` of the right side matches on some key pair.
pub open spec fn right_keeps(keys: Seq<(Seq<Option<i64>>, Seq<Option<i64>>)>, r: int) -> bool {
    exists|p: int| 0 <= p < keys.len() && key_in((#[trigger] keys[p]).1[r], keys[p].0)
}

/// The rows below `n` for which `keep` holds, in increasing order.
pub open spec fn kept_positions(n: nat, keep: spec_fn(int) -> bool) -> Seq<usize>
    decreases n,
{
    if n == 0 {
        Seq::empty()
    } else {
        let rest = kept_positions((n - 1) as nat, keep);
        if keep(n - 1) {
            rest.push((n - 1) as usize)
        } else {
            rest
        }
    }
}

/// The left rows that a join keeps.
pub open spec fn left_positions(n: nat, keys: Seq<(Seq<Option<i64>>, Seq<Option<i64>>)>) -> Seq<
    usize,
> {
    kept_positions(n, |l: int| left_keeps(keys, l))
}

/// The right rows that a join keeps.
pub open spec fn right_positions(n: nat, keys: Seq<(Seq<Option<i64>>, Seq<Option<i64>>)>) -> Seq<
    usize,
> {
    kept_positions(n, |r: int| right_keeps(keys, r))
}

/// The values of an Int64 column.
pub open spec fn int_keys(c: ColumnVector) -> Seq<Option<i64>> {
    match c {
        ColumnVector::Int64(v) => v@,
        _ => Seq::empty(),
    }
}

/// The key columns named by `on`, as (left, right) pairs.
pub open spec fn join_keys(left: RecordBatch, right: RecordBatch, on: Seq<(usize, usize)>) -> Seq<
    (Seq<Option<i64>>, Seq<Option<i64>>),
> {
    Seq::new(
        on.len(),
        |p: int|
            (
                int_keys(left.columns@[on[p].0 as int]),
                int_keys(right.columns@[on[p].1 as int]),
            ),
    )
}

/// Every pair of `on` names an Int64 column on each side.
pub open spec fn keys_valid(left: RecordBatch, right: RecordBatch, on: Seq<(usize, usize)>) -> bool {
    forall|p: int|
        0 <= p < on.len() ==> (#[trigger] on[p]).0 < left.columns@.len() && on[p].1
            < right.columns@.len() && left.columns@[on[p].0 as int] is Int64
            && right.columns@[on[p].1 as int] is Int64
}

/// Kept positions are in range.
pub proof fn lemma_positions_below(n: nat, keep: spec_fn(int) -> bool)
    ensures
        forall|i: int|
            0 <= i < kept_positions(n, keep).len() ==> (#[trigger] kept_positions(n, keep)[i]) < n,
        kept_positions(n, keep).len() <= n,
    decreases n,
{
    if n > 0 {
        lemma_positions_below((n - 1) as nat, keep);
    }
}

/// Two predicates that agree below `n` keep the same positions.
pub proof fn lemma_positions_agree(n: nat, f: spec_fn(int) -> bool, g: spec_fn(int) -> bool)
    requires
        forall|i: int| 0 <= i < n ==> #[trigger] f(i) == g(i),
    ensures
        kept_positions(n, f) == kept_positions(n, g),
    decreases n,
{
    if n > 0 {
        lemma_positions_agree((n - 1) as nat, f, g);
    }
}

/// Joining `L` to `R` on one key pair `a = b` keeps the same rows of each
/// table as joining `R` to `L` on `b = a`: a row of either side is kept
/// exactly when its key is not null and occurs on the other side.
pub proof fn law_join_commutes(a: Seq<Option<i64>>, b: Seq<Option<i64>>)
    ensures
        left_positions(a.len(), seq![(a, b)]) == right_positions(a.len(), seq![(b, a)]),
        right_positions(b.len(), seq![(a, b)]) == left_positions(b.len(), seq![(b, a)]),
{
    let ab = seq![(a, b)];
    let ba = seq![(b, a)];
    assert forall|i: int| 0 <= i < a.len() implies left_keeps(ab, i) == right_keeps(ba, i) by {
        if left_keeps(ab, i) {
            assert(key_in(ab[0].0[i], ab[0].1));
            assert(key_in(ba[0].1[i], ba[0].0));
        }
        if right_keeps(ba, i) {
            let p = choose|p: int| 0 <= p < ba.len() && key_in(ba[p].1[i], ba[p].0);
            assert(p == 0);
        }
    }
    lemma_positions_agree(a.len(), |l: int| left_keeps(ab, l), |r: int| right_keeps(ba, r));
    assert forall|i: int| 0 <= i < b.len() implies right_keeps(ab, i) == left_keeps(ba, i) by {
        if left_keeps(ba, i) {
            assert(key_in(ba[0].0[i], ba[0].1));
            assert(key_in(ab[0].1[i], ab[0].0));
        }
        if right_keeps(ab, i) {
            let p = choose|p: int| 0 <= p < ab.len() && key_in(ab[p].1[i], ab[p].0);
            assert(p == 0);
        }
    }
    lemma_positions_agree(b.len(), |r: int| right_keeps(ab, r), |l: int| left_keeps(ba, l));
}

/// `k` is not null and occurs in `others`.
fn find_key(k: Option<i64>, others: &Vec<Option<i64>>) -> (r: bool)
    ensures
        r == key_in(k, others@),
{
    match k {
        None => false,
        Some(x) => {
            let mut j: usize = 0;
            while j < others.len()
                invariant
                    k == Some(x),
                    j <= others@.len(),
                    forall|m: int| 0 <= m < j ==> others@[m] != k,
                decreases others@.len() - j,
            {
                if let Some(y) = others[j] {
                    if y == x {
                        assert(others@[j as int] == k);
                        return true;
                    }
                }
                j = j + 1;
            }
            false
        },
    }
}

/// The result of a join: the left columns at the left positions, followed
/// by the right columns at the right positions.
pub open spec fn joined(left: RecordBatch, right: RecordBatch, on: Seq<(usize, usize)>, out: RecordBatch) -> bool {
    let keys = join_keys(left, right, on);
    let lp = left_positions(left.num_rows as nat, keys);
    let rp = right_positions(right.num_rows as nat, keys);
    &&& out.wf()
    &&& out.num_rows == lp.len()
    &&& lp.len() == rp.len()
    &&& out.columns@.len() == left.columns@.len() + right.columns@.len()
    &&& forall|j: int|
        0 <= j < left.columns@.len() ==> (#[trigger] left.columns@[j]).taken_to(lp, out.columns@[j])
    &&& forall|j: int|
        0 <= j < right.columns@.len() ==> (#[trigger] right.columns@[j]).taken_to(
            rp,
            out.columns@[left.columns@.len() + j],
        )
}

/// The join keeps as many left rows as right rows, and `schema` has the
/// left columns' types followed by the right columns' types.
pub open spec fn join_fits(left: RecordBatch, right: RecordBatch, on: Seq<(usize, usize)>, schema: Schema) -> bool {
    let keys = join_keys(left, right, on);
    let nl = left.columns@.len();
    &&& left_positions(left.num_rows as nat, keys).len() == right_positions(
        right.num_rows as nat,
        keys,
    ).len()
    &&& schema.fields@.len() == nl + right.columns@.len()
    &&& forall|j: int|
        0 <= j < nl ==> (#[trigger] schema.fields@[j]).data_type
            == left.columns@[j].data_type_spec()
    &&& forall|j: int|
        0 <= j < right.columns@.len() ==> (#[trigger] schema.fields@[nl + j]).data_type
            == right.columns@[j].data_type_spec()
}

/// Joins two batches on the key column pairs `on`: a left row is kept when
/// its key matches some right key on every pair, a right row when its key
/// matches some left key on any pair. Fails on an empty `on`, on key columns
/// that are not both Int64, when the two sides keep different numbers of
/// rows, or when the result does not fit `schema`.
pub fn join_batches(left: &RecordBatch, right: &RecordBatch, on: &Vec<(usize, usize)>, schema: &Schema) -> (r:
    Result<RecordBatch, Error>)
    requires
        left.wf(),
        right.wf(),
    ensures
        match r {
            Ok(out) => on@.len() > 0 && keys_valid(*left, *right, on@) && joined(
                *left,
                *right,
                on@,
                out,
            ) && out.schema.fields@ == schema.fields@,
            Err(e) => on@.len() == 0 && e is PhysicalPlanError || on@.len() > 0 && !keys_valid(
                *left,
                *right,
                on@,
            ) && e is PhysicalPlanError || on@.len() > 0 && keys_valid(*left, *right, on@)
                && !join_fits(*left, *right, on@, *schema) && e is ArrowError,
        },
{
    if on.len() == 0 {
        return Err(Error::PhysicalPlanError("`on` cannot be empty when executing nested loop join".to_string()));
    }
    let nl = left.num_rows;
    let nr = right.num_rows;
    let ghost keys = join_keys(*left, *right, on@);
    // left_all[l]: row l matches on every pair so far; right_any[r]: on some pair.
    let mut left_all: Vec<bool> = crate::array::repeat_copy(true, nl);
    let mut right_any: Vec<bool> = crate::array::repeat_copy(false, nr);
    let mut p: usize = 0;
    while p < on.len()
        invariant
            left.wf(),
            right.wf(),
            nl == left.num_rows,
            nr == right.num_rows,
            keys == join_keys(*left, *right, on@),
            p <= on@.len(),
            left_all@.len() == nl,
            right_any@.len() == nr,
            keys_valid(*left, *right, on@.subrange(0, p as int)),
            forall|l: int|
                0 <= l < nl ==> (#[trigger] left_all@[l]) == left_keeps(keys.subrange(0, p as int), l),
            forall|r: int|
                0 <= r < nr ==> (#[trigger] right_any@[r]) == right_keeps(keys.subrange(0, p as int), r),
        decreases on@.len() - p,
    {
        let (li, ri) = on[p];
        if li >= left.columns.len() || ri >= right.columns.len() {
            proof {
                assert(!keys_valid(*left, *right, on@)) by {
                    assert(on@[p as int].0 == li && on@[p as int].1 == ri);
                }
            }
            return Err(Error::PhysicalPlanError("join key column out of range".to_string()));
        }
        let lk = match &left.columns[li] {
            ColumnVector::Int64(v) => v,
            _ => {
                proof {
                    assert(!keys_valid(*left, *right, on@)) by {
                        assert(on@[p as int].0 == li && on@[p as int].1 == ri);
                    }
                }
                return Err(Error::PhysicalPlanError("Left and right types of on should match".to_string()));
            },
        };
        let rk = match &right.columns[ri] {
            ColumnVector::Int64(v) => v,
            _ => {
                proof {
                    assert(!keys_valid(*left, *right, on@)) by {
                        assert(on@[p as int].0 == li && on@[p as int].1 == ri);
                    }
                }
                return Err(Error::PhysicalPlanError("Left and right types of on should match".to_string()));
            },
        };
        assert(keys[p as int] == (lk@, rk@));
        assert(lk@.len() == nl) by {
            assert(left.columns@[li as int].len_spec() == nl);
        }
        assert(rk@.len() == nr) by {
            assert(right.columns@[ri as int].len_spec() == nr);
        }
        let ghost old_left = left_all@;
        let ghost old_right = right_any@;
        let mut l: usize = 0;
        while l < nl
            invariant
                p < on@.len(),
                lk@.len() == nl,
                left_all@.len() == nl,
                l <= nl,
                forall|m: int| l <= m < nl ==> left_all@[m] == old_left[m],
                forall|m: int|
                    0 <= m < l ==> (#[trigger] left_all@[m]) == (old_left[m] && key_in(lk@[m], rk@)),
            decreases nl - l,
        {
            let hit = find_key(lk[l], rk);
            let cur = left_all[l];
            left_all.set(l, cur && hit);
            l = l + 1;
        }
        let mut r: usize = 0;
        while r < nr
            invariant
                p < on@.len(),
                rk@.len() == nr,
                right_any@.len() == nr,
                r <= nr,
                forall|m: int| r <= m < nr ==> right_any@[m] == old_right[m],
                forall|m: int|
                    0 <= m < r ==> (#[trigger] right_any@[m]) == (old_right[m] || key_in(rk@[m], lk@)),
            decreases nr - r,
        {
            let hit = find_key(rk[r], lk);
            let cur = right_any[r];
            right_any.set(r, cur || hit);
            r = r + 1;
        }
        proof {
            let prev = keys.subrange(0, p as int);
            let next = keys.subrange(0, p as int + 1);
            assert(next =~= prev.push(keys[p as int]));
            assert forall|m: int| 0 <= m < nl implies (#[trigger] left_all@[m]) == left_keeps(next, m) by {
                if left_keeps(next, m) {
                    assert forall|q: int| 0 <= q < prev.len() implies key_in(
                        (#[trigger] prev[q]).0[m],
                        prev[q].1,
                    ) by {
                        assert(prev[q] == next[q]);
                    }
                    assert(next[p as int] == keys[p as int]);
                }
                if left_all@[m] {
                    assert forall|q: int| 0 <= q < next.len() implies key_in(
                        (#[trigger] next[q]).0[m],
                        next[q].1,
                    ) by {
                        if q < p {
                            assert(prev[q] == next[q]);
                        }
                    }
                }
            }
            assert forall|m: int| 0 <= m < nr implies (#[trigger] right_any@[m]) == right_keeps(next, m) by {
                if right_keeps(prev, m) {
                    let q = choose|q: int| 0 <= q < prev.len() && key_in((#[trigger] prev[q]).1[m], prev[q].0);
                    assert(prev[q] == next[q]);
                }
                if right_keeps(next, m) {
                    let q = choose|q: int| 0 <= q < next.len() && key_in((#[trigger] next[q]).1[m], next[q].0);
                    if q < p {
                        assert(prev[q] == next[q]);
                    }
                }
                if key_in(rk@[m], lk@) {
                    assert(next[p as int] == keys[p as int]);
                }
            }
            assert forall|q: int| 0 <= q < p + 1 implies (#[trigger] on@.subrange(0, p as int + 1)[q]).0
                < left.columns@.len() && on@.subrange(0, p as int + 1)[q].1 < right.columns@.len()
                && left.columns@[on@.subrange(0, p as int + 1)[q].0 as int] is Int64
                && right.columns@[on@.subrange(0, p as int + 1)[q].1 as int] is Int64 by {
                if q < p {
                    assert(on@.subrange(0, p as int)[q] == on@.subrange(0, p as int + 1)[q]);
                }
            }
        }
        p = p + 1;
    }
    assert(on@.subrange(0, on@.len() as int) =~= on@);
    assert(keys.subrange(0, on@.len() as int) =~= keys);
    let lp = positions_of(&left_all);
    let rp = positions_of(&right_any);
    proof {
        lemma_positions_agree(nl as nat, |i: int| left_all@[i], |l: int| left_keeps(keys, l));
        lemma_positions_agree(nr as nat, |i: int| right_any@[i], |r: int| right_keeps(keys, r));
        lemma_positions_below(nl as nat, |l: int| left_keeps(keys, l));
        lemma_positions_below(nr as nat, |r: int| right_keeps(keys, r));
    }
    if lp.len() != rp.len() {
        return Err(Error::ArrowError("all columns in a record batch must have the same length".to_string()));
    }
    let mut columns: Vec<ColumnVector> = Vec::new();
    let mut j: usize = 0;
    while j < left.columns.len()
        invariant
            left.wf(),
            nl == left.num_rows,
            j <= left.columns@.len(),
            columns@.len() == j,
            forall|i: int| 0 <= i < lp@.len() ==> (#[trigger] lp@[i]) < nl,
            forall|m: int|
                0 <= m < j ==> (#[trigger] left.columns@[m]).taken_to(lp@, columns@[m])
                    && columns@[m].len_spec() == lp@.len() && columns@[m].data_type_spec()
                    == left.columns@[m].data_type_spec(),
        decreases left.columns@.len() - j,
    {
        assert(left.columns@[j as int].len_spec() == nl);
        columns.push(left.columns[j].take(&lp));
        j = j + 1;
    }
    let mut j: usize = 0;
    while j < right.columns.len()
        invariant
            right.wf(),
            nr == right.num_rows,
            j <= right.columns@.len(),
            columns@.len() == left.columns@.len() + j,
            forall|i: int| 0 <= i < rp@.len() ==> (#[trigger] rp@[i]) < nr,
            forall|m: int|
                0 <= m < left.columns@.len() ==> (#[trigger] left.columns@[m]).taken_to(
                    lp@,
                    columns@[m],
                ) && columns@[m].len_spec() == lp@.len() && columns@[m].data_type_spec()
                    == left.columns@[m].data_type_spec(),
            forall|m: int|
                0 <= m < j ==> (#[trigger] right.columns@[m]).taken_to(
                    rp@,
                    columns@[left.columns@.len() + m],
                ) && columns@[left.columns@.len() + m].len_spec() == rp@.len()
                    && columns@[left.columns@.len() + m].data_type_spec()
                    == right.columns@[m].data_type_spec(),
        decreases right.columns@.len() - j,
    {
        assert(right.columns@[j as int].len_spec() == nr);
        columns.push(right.columns[j].take(&rp));
        j = j + 1;
    }
    let ghost cols = columns@;
    match RecordBatch::try_new(schema.clone(), columns, lp.len()) {
        Ok(out) => {
            assert(out.columns@ == cols);
            Ok(out)
        },
        Err(e) => {
            proof {
                if join_fits(*left, *right, on@, *schema) {
                    let nlc = left.columns@.len();
                    assert forall|k: int| 0 <= k < cols.len() implies (#[trigger] cols[k]).len_spec()
                        == lp@.len() && cols[k].data_type_spec() == schema.fields@[k].data_type by {
                        if k >= nlc {
                            assert(schema.fields@[nlc + (k - nlc)].data_type
                                == right.columns@[k - nlc].data_type_spec());
                        } else {
                            assert(schema.fields@[k].data_type == left.columns@[k].data_type_spec());
                        }
                    }
                }
            }
            Err(e)
        },
    }
}

/// The positions where `flags` is true, in increasing order.
pub fn positions_of(flags: &Vec<bool>) -> (r: Vec<usize>)
    ensures
        r@ == kept_positions(flags@.len(), |i: int| flags@[i]),
{
    let mut out: Vec<usize> = Vec::new();
    let mut i: usize = 0;
    while i < flags.len()
        invariant
            i <= flags@.len(),
            out@ == kept_positions(i as nat, |k: int| flags@[k]),
        decreases flags@.len() - i,
    {
        if flags[i] {
            out.push(i);
        }
        i = i + 1;
    }
    out
}

} // verus!
