//! Analytic window functions over one ordered partition, and the grouping
//! and ordering of rows that prepares the partitions.

use vstd::prelude::*;
use crate::expr::AggKind;

verus! {

/// The key of a row: one nullable integer per key column.
pub type Key = Vec<Option<i64>>;

/// The keys of a list of rows as plain sequences.
pub open spec fn keys_view(keys: Seq<Key>) -> Seq<Seq<Option<i64>>> {
    Seq::new(keys.len(), |i: int| keys[i]@)
}

fn same_cell(x: Option<i64>, y: Option<i64>) -> (r: bool)
    ensures
        r == (x == y),
{
    match (x, y) {
        (None, None) => true,
        (Some(a), Some(b)) => a == b,
        _ => false,
    }
}

/// Whether two keys hold the same cells.
pub fn same_key(a: &Key, b: &Key) -> (r: bool)
    ensures
        r == (a@ == b@),
{
    if a.len() != b.len() {
        return false;
    }
    let mut i: usize = 0;
    while i < a.len()
        invariant
            i <= a@.len(),
            a@.len() == b@.len(),
            forall|j: int| 0 <= j < i ==> a@[j] == b@[j],
        decreases a@.len() - i,
    {
        if !same_cell(a[i], b[i]) {
            return false;
        }
        i += 1;
    }
    assert(a@ =~= b@);
    true
}

/// The numbers `1, 2, .., n`.
pub open spec fn row_numbers(n: nat) -> Seq<u64> {
    Seq::new(n, |i: int| (i + 1) as u64)
}

/// The one-based position of every row of a partition of `n` rows.
pub fn window_row_number(n: usize) -> (r: Vec<u64>)
    ensures
        r@ == row_numbers(n as nat),
{
    let mut out: Vec<u64> = Vec::new();
    let mut i: usize = 0;
    while i < n
        invariant
            i <= n,
            out@ == row_numbers(i as nat),
        decreases n - i,
    {
        out.push(i as u64 + 1);
        i += 1;
        assert(out@ =~= row_numbers(i as nat));
    }
    out
}

/// The rank of row `i` among rows ordered by `keys`. Rows with equal keys
/// share a rank. The plain rank of the first row of a run of equal keys is
/// its one-based position; its dense rank is one more than the rank before.
pub open spec fn rank_at(keys: Seq<Seq<Option<i64>>>, i: int, dense: bool) -> int
    decreases i,
{
    if i <= 0 {
        1
    } else if keys[i] == keys[i - 1] {
        rank_at(keys, i - 1, dense)
    } else if dense {
        rank_at(keys, i - 1, dense) + 1
    } else {
        i + 1
    }
}

/// A rank lies between one and the one-based position of its row.
pub proof fn lemma_rank_bounds(keys: Seq<Seq<Option<i64>>>, i: int, dense: bool)
    requires
        0 <= i,
    ensures
        1 <= rank_at(keys, i, dense) <= i + 1,
    decreases i,
{
    if i > 0 {
        lemma_rank_bounds(keys, i - 1, dense);
    }
}

/// The rank, dense or plain, of every row of a partition whose rows are
/// ordered by `keys`.
pub fn window_rank(keys: &Vec<Key>, dense: bool) -> (r: Vec<u64>)
    ensures
        r@.len() == keys@.len(),
        forall|i: int| 0 <= i < r@.len() ==> r@[i] == rank_at(keys_view(keys@), i, dense),
{
    let n: usize = keys.len();
    let mut out: Vec<u64> = Vec::new();
    let mut i: usize = 0;
    let mut current: u64 = 1;
    while i < n
        invariant
            i <= n,
            n == keys@.len(),
            out@.len() == i,
            forall|j: int| 0 <= j < i ==> out@[j] == rank_at(keys_view(keys@), j, dense),
            i > 0 ==> current == rank_at(keys_view(keys@), i - 1, dense),
        decreases n - i,
    {
        proof {
            lemma_rank_bounds(keys_view(keys@), i as int, dense);
            if i > 0 {
                lemma_rank_bounds(keys_view(keys@), i - 1, dense);
            }
        }
        if i == 0 {
            current = 1;
        } else if same_key(&keys[i], &keys[i - 1]) {
        } else if dense {
            current = current + 1;
        } else {
            current = i as u64 + 1;
        }
        out.push(current);
        i += 1;
    }
    out
}

/// The value that an offset function gives row `i`: the value `offset` rows
/// further on where that row exists, else the row's default, else null.
pub open spec fn offset_at(
    values: Seq<Option<i64>>,
    defaults: Option<Seq<Option<i64>>>,
    offset: int,
    i: int,
) -> Option<i64> {
    let target = i + offset;
    if 0 <= target < values.len() {
        values[target]
    } else {
        match defaults {
            Some(d) => d[i],
            None => None,
        }
    }
}

/// An offset of one row forward gives the last row of a partition its
/// default where defaults are supplied, and null where they are not.
pub proof fn lemma_offset_past_last_row(values: Seq<Option<i64>>, defaults: Seq<Option<i64>>)
    requires
        values.len() > 0,
    ensures
        offset_at(values, None, 1, values.len() - 1) == None::<i64>,
        offset_at(values, Some(defaults), 1, values.len() - 1) == defaults[values.len() - 1],
{
}

/// For every row of a partition, the value of `values` at `offset` rows from
/// it; where there is no such row, the row's entry of `defaults`, or null
/// without defaults.
pub fn window_offset(values: &Vec<Option<i64>>, offset: i64, defaults: Option<&Vec<Option<i64>>>) -> (r:
    Vec<Option<i64>>)
    requires
        defaults matches Some(d) ==> d@.len() == values@.len(),
    ensures
        r@.len() == values@.len(),
        forall|i: int|
            0 <= i < r@.len() ==> r@[i] == offset_at(
                values@,
                match defaults {
                    Some(d) => Some(d@),
                    None => None,
                },
                offset as int,
                i,
            ),
{
    let n: usize = values.len();
    let ghost dv: Option<Seq<Option<i64>>> = match defaults {
        Some(d) => Some(d@),
        None => None,
    };
    let mut out: Vec<Option<i64>> = Vec::new();
    let mut i: usize = 0;
    while i < n
        invariant
            i <= n,
            n == values@.len(),
            defaults matches Some(d) ==> d@.len() == values@.len(),
            dv == match defaults {
                Some(d) => Some(d@),
                None => None,
            },
            out@.len() == i,
            forall|j: int| 0 <= j < i ==> out@[j] == offset_at(values@, dv, offset as int, j),
        decreases n - i,
    {
        let target: i128 = i as i128 + offset as i128;
        let cell: Option<i64> = if 0 <= target && target < n as i128 {
            values[target as usize]
        } else {
            match defaults {
                Some(d) => d[i],
                None => None,
            }
        };
        out.push(cell);
        i += 1;
    }
    out
}

/// An aggregate over no rows: a count of zero, otherwise null.
pub open spec fn agg_start(kind: AggKind) -> Option<i64> {
    match kind {
        AggKind::Count => Some(0i64),
        _ => None,
    }
}

/// An aggregate extended by one more cell. Nulls are skipped; a sum or a
/// count that leaves the range of `i64` wraps around.
pub open spec fn agg_step(kind: AggKind, acc: Option<i64>, cell: Option<i64>) -> Option<i64> {
    match (acc, cell) {
        (_, None) => acc,
        (None, Some(v)) => match kind {
            AggKind::Count => Some(1i64),
            _ => Some(v),
        },
        (Some(a), Some(v)) => match kind {
            AggKind::Count => Some(a.wrapping_add(1)),
            AggKind::Sum => Some(a.wrapping_add(v)),
            AggKind::Min => Some(if v < a { v } else { a }),
            AggKind::Max => Some(if v > a { v } else { a }),
        },
    }
}

/// The aggregate of the cells `0..=i`.
pub open spec fn agg_upto(kind: AggKind, values: Seq<Option<i64>>, i: int) -> Option<i64>
    decreases i + 1,
{
    if i < 0 {
        agg_start(kind)
    } else {
        agg_step(kind, agg_upto(kind, values, i - 1), values[i])
    }
}

fn step_aggregate(kind: AggKind, acc: Option<i64>, cell: Option<i64>) -> (r: Option<i64>)
    ensures
        r == agg_step(kind, acc, cell),
{
    match (acc, cell) {
        (_, None) => acc,
        (None, Some(v)) => match kind {
            AggKind::Count => Some(1),
            _ => Some(v),
        },
        (Some(a), Some(v)) => match kind {
            AggKind::Count => Some(a.wrapping_add(1)),
            AggKind::Sum => Some(a.wrapping_add(v)),
            AggKind::Min => Some(if v < a { v } else { a }),
            AggKind::Max => Some(if v > a { v } else { a }),
        },
    }
}

/// For every row of a partition, the aggregate of `values` from the first
/// row of the partition through that row.
pub fn window_running_agg(kind: AggKind, values: &Vec<Option<i64>>) -> (r: Vec<Option<i64>>)
    ensures
        r@.len() == values@.len(),
        forall|i: int| 0 <= i < r@.len() ==> r@[i] == agg_upto(kind, values@, i),
{
    let n: usize = values.len();
    let mut out: Vec<Option<i64>> = Vec::new();
    let mut acc: Option<i64> = match kind {
        AggKind::Count => Some(0),
        _ => None,
    };
    let mut i: usize = 0;
    while i < n
        invariant
            i <= n,
            n == values@.len(),
            out@.len() == i,
            acc == agg_upto(kind, values@, i - 1),
            forall|j: int| 0 <= j < i ==> out@[j] == agg_upto(kind, values@, j),
        decreases n - i,
    {
        acc = step_aggregate(kind, acc, values[i]);
        out.push(acc);
        i += 1;
    }
    out
}

} // verus!
