//! Grouping of rows by partition key and ordering of rows within and across
//! partitions.

use vstd::prelude::*;
use vstd::seq_lib::{
    to_multiset_build,
    to_multiset_contains,
    to_multiset_insert,
    to_multiset_len,
    to_multiset_remove,
};
use crate::window::{Key, keys_view, same_key};

verus! {

/// The row numbers `0, 1, .., n - 1`.
pub open spec fn iota(n: nat) -> Seq<usize> {
    Seq::new(n, |i: int| i as usize)
}

/// Whether `ids` gives two rows the same number exactly when their keys are
/// equal.
pub open spec fn identifies(keys: Seq<Seq<Option<i64>>>, ids: Seq<usize>) -> bool {
    &&& ids.len() == keys.len()
    &&& forall|j: int, k: int|
        0 <= j < keys.len() && 0 <= k < keys.len() ==> ((#[trigger] ids[j] == #[trigger] ids[k])
            <==> keys[j] == keys[k])
}

/// Numbers the partitions in order of first appearance and gives every row
/// the number of its partition: rows get the same number exactly when their
/// keys are equal.
pub fn partition_ids(keys: &Vec<Key>) -> (ids: Vec<usize>)
    ensures
        identifies(keys_view(keys@), ids@),
{
    let n: usize = keys.len();
    let ghost kv = keys_view(keys@);
    let mut firsts: Vec<usize> = Vec::new();
    let mut ids: Vec<usize> = Vec::new();
    let mut i: usize = 0;
    while i < n
        invariant
            i <= n,
            n == keys@.len(),
            kv == keys_view(keys@),
            ids@.len() == i,
            forall|j: int|
                0 <= j < i ==> (#[trigger] ids@[j]) < firsts@.len() && kv[firsts@[ids@[j] as int] as int]
                    == kv[j],
            forall|g: int| 0 <= g < firsts@.len() ==> (#[trigger] firsts@[g]) < i,
            forall|g: int, h: int|
                0 <= g < h < firsts@.len() ==> kv[#[trigger] firsts@[g] as int]
                    != kv[#[trigger] firsts@[h] as int],
        decreases n - i,
    {
        let mut g: usize = 0;
        while g < firsts.len() && !same_key(&keys[firsts[g]], &keys[i])
            invariant
                g <= firsts@.len(),
                i < n,
                n == keys@.len(),
                kv == keys_view(keys@),
                forall|h: int| 0 <= h < firsts@.len() ==> (#[trigger] firsts@[h]) < i,
                forall|h: int| 0 <= h < g ==> kv[#[trigger] firsts@[h] as int] != kv[i as int],
            decreases firsts@.len() - g,
        {
            g += 1;
        }
        if g == firsts.len() {
            firsts.push(i);
        }
        ids.push(g);
        i += 1;
    }
    assert forall|j: int, k: int| 0 <= j < n && 0 <= k < n implies ((#[trigger] ids@[j]
        == #[trigger] ids@[k]) <==> kv[j] == kv[k]) by {
        let gj = ids@[j] as int;
        let gk = ids@[k] as int;
        assert(kv[firsts@[gj] as int] == kv[j]);
        assert(kv[firsts@[gk] as int] == kv[k]);
        if gj < gk {
            assert(kv[firsts@[gj] as int] != kv[firsts@[gk] as int]);
        }
        if gk < gj {
            assert(kv[firsts@[gk] as int] != kv[firsts@[gj] as int]);
        }
    }
    ids
}

/// Whether cell `x` sorts strictly before cell `y`. A null sorts before
/// every value in a descending column and after every value in an ascending
/// one.
pub open spec fn cell_before(x: Option<i64>, y: Option<i64>, descending: bool) -> bool {
    match (x, y) {
        (None, None) => false,
        (None, Some(_)) => descending,
        (Some(_), None) => !descending,
        (Some(a), Some(b)) => if descending {
            a > b
        } else {
            a < b
        },
    }
}

/// The direction of key column `c`: ascending where no flag is given.
pub open spec fn direction(descending: Seq<bool>, c: int) -> bool {
    if 0 <= c < descending.len() {
        descending[c]
    } else {
        false
    }
}

/// Whether key `a` sorts strictly before key `b`, comparing column by column
/// from column `from` on.
pub open spec fn key_before(
    a: Seq<Option<i64>>,
    b: Seq<Option<i64>>,
    descending: Seq<bool>,
    from: int,
) -> bool
    decreases a.len() - from,
{
    if from < 0 || from >= a.len() || from >= b.len() {
        false
    } else if cell_before(a[from], b[from], direction(descending, from)) {
        true
    } else if cell_before(b[from], a[from], direction(descending, from)) {
        false
    } else {
        key_before(a, b, descending, from + 1)
    }
}

/// No key sorts both before and after another.
pub proof fn lemma_key_before_asymmetric(
    a: Seq<Option<i64>>,
    b: Seq<Option<i64>>,
    descending: Seq<bool>,
    from: int,
)
    requires
        key_before(a, b, descending, from),
    ensures
        !key_before(b, a, descending, from),
    decreases a.len() - from,
{
    if 0 <= from < a.len() && from < b.len() {
        if !cell_before(a[from], b[from], direction(descending, from)) {
            lemma_key_before_asymmetric(a, b, descending, from + 1);
        }
    }
}

fn cell_precedes(x: Option<i64>, y: Option<i64>, descending: bool) -> (r: bool)
    ensures
        r == cell_before(x, y, descending),
{
    match (x, y) {
        (None, None) => false,
        (None, Some(_)) => descending,
        (Some(_), None) => !descending,
        (Some(a), Some(b)) => if descending {
            a > b
        } else {
            a < b
        },
    }
}

/// Whether key `a` sorts strictly before key `b`.
pub fn key_precedes(a: &Key, b: &Key, descending: &Vec<bool>) -> (r: bool)
    ensures
        r == key_before(a@, b@, descending@, 0),
{
    let mut c: usize = 0;
    while c < a.len() && c < b.len()
        invariant
            key_before(a@, b@, descending@, 0) == key_before(a@, b@, descending@, c as int),
        decreases a@.len() - c,
    {
        let flag: bool = if c < descending.len() {
            descending[c]
        } else {
            false
        };
        if cell_precedes(a[c], b[c], flag) {
            return true;
        }
        if cell_precedes(b[c], a[c], flag) {
            return false;
        }
        c += 1;
    }
    false
}

/// Whether row `a` comes strictly before row `b` in the output: rows of an
/// earlier partition first, and within a partition by ordering key.
pub open spec fn row_before(
    ids: Seq<usize>,
    order_keys: Seq<Seq<Option<i64>>>,
    descending: Seq<bool>,
    a: int,
    b: int,
) -> bool {
    ids[a] < ids[b] || (ids[a] == ids[b] && key_before(order_keys[a], order_keys[b], descending, 0))
}

/// A key that sorts before a second key sorts before every key that does
/// not sort before the second.
pub proof fn lemma_key_before_transitive(
    a: Seq<Option<i64>>,
    b: Seq<Option<i64>>,
    c: Seq<Option<i64>>,
    descending: Seq<bool>,
    from: int,
)
    requires
        a.len() == b.len(),
        b.len() == c.len(),
        key_before(a, b, descending, from),
        !key_before(c, b, descending, from),
    ensures
        key_before(a, c, descending, from),
    decreases a.len() - from,
{
    if 0 <= from < a.len() {
        let d = direction(descending, from);
        if !cell_before(a[from], b[from], d) && !cell_before(b[from], c[from], d) {
            lemma_key_before_transitive(a, b, c, descending, from + 1);
        }
    }
}

/// Whether all keys have the same number of cells.
pub open spec fn same_length(keys: Seq<Seq<Option<i64>>>) -> bool {
    forall|i: int, j: int|
        0 <= i < keys.len() && 0 <= j < keys.len() ==> (#[trigger] keys[i]).len() == (
        #[trigger] keys[j]).len()
}

/// Whether `order` lists rows so that no row comes strictly before an
/// earlier one, and rows that tie keep the order of their numbers.
pub open spec fn ordered(
    ids: Seq<usize>,
    order_keys: Seq<Seq<Option<i64>>>,
    descending: Seq<bool>,
    order: Seq<usize>,
) -> bool {
    forall|p: int, q: int|
        0 <= p < q < order.len() ==> !row_before(
            ids,
            order_keys,
            descending,
            #[trigger] order[q] as int,
            #[trigger] order[p] as int,
        ) && (row_before(ids, order_keys, descending, order[p] as int, order[q] as int)
            || order[p] < order[q])
}

/// The order in which the rows leave the engine: every row exactly once,
/// partition after partition, and within a partition by ordering key. Rows
/// that tie keep the order in which they came.
pub fn order_rows(ids: &Vec<usize>, order_keys: &Vec<Key>, descending: &Vec<bool>) -> (order: Vec<
    usize,
>)
    requires
        ids@.len() == order_keys@.len(),
        same_length(keys_view(order_keys@)),
    ensures
        order@.len() == ids@.len(),
        order@.to_multiset() == iota(ids@.len()).to_multiset(),
        forall|k: int| 0 <= k < order@.len() ==> (#[trigger] order@[k]) < ids@.len(),
        ordered(ids@, keys_view(order_keys@), descending@, order@),
{
    let n: usize = ids.len();
    let ghost okv = keys_view(order_keys@);
    let mut order: Vec<usize> = Vec::new();
    let mut i: usize = 0;
    assert(order@ =~= iota(0));
    while i < n
        invariant
            i <= n,
            n == ids@.len(),
            n == order_keys@.len(),
            okv == keys_view(order_keys@),
            same_length(okv),
            order@.len() == i,
            order@.to_multiset() == iota(i as nat).to_multiset(),
            forall|k: int| 0 <= k < order@.len() ==> (#[trigger] order@[k]) < i,
            ordered(ids@, okv, descending@, order@),
        decreases n - i,
    {
        let mut pos: usize = 0;
        while pos < order.len() && !(ids[i] < ids[order[pos]] || (ids[i] == ids[order[pos]]
            && key_precedes(&order_keys[i], &order_keys[order[pos]], descending)))
            invariant
                pos <= order@.len(),
                i < n,
                n == ids@.len(),
                n == order_keys@.len(),
                okv == keys_view(order_keys@),
                forall|k: int| 0 <= k < order@.len() ==> (#[trigger] order@[k]) < i,
                forall|k: int|
                    0 <= k < pos ==> !row_before(
                        ids@,
                        okv,
                        descending@,
                        i as int,
                        #[trigger] order@[k] as int,
                    ),
            decreases order@.len() - pos,
        {
            pos += 1;
        }
        let ghost before = order@;
        proof {
            to_multiset_insert(before, pos as int, i);
            to_multiset_build(iota(i as nat), i);
            assert(iota((i + 1) as nat) =~= iota(i as nat).push(i));
            assert forall|k: int| pos <= k < before.len() implies row_before(
                ids@,
                okv,
                descending@,
                i as int,
                #[trigger] before[k] as int,
            ) && !row_before(ids@, okv, descending@, before[k] as int, i as int) by {
                let first = before[pos as int] as int;
                let other = before[k] as int;
                assert(row_before(ids@, okv, descending@, i as int, first));
                if k > pos {
                    assert(!row_before(ids@, okv, descending@, other, first));
                }
                assert(okv[i as int].len() == okv[first].len());
                assert(okv[first].len() == okv[other].len());
                if ids@[i as int] == ids@[first] && ids@[first] == ids@[other] {
                    if k > pos {
                        lemma_key_before_transitive(
                            okv[i as int],
                            okv[first],
                            okv[other],
                            descending@,
                            0,
                        );
                    }
                    lemma_key_before_asymmetric(okv[i as int], okv[other], descending@, 0);
                }
            }
        }
        order.insert(pos, i);
        proof {
            before.insert_ensures(pos as int, i);
            assert forall|p: int, q: int| 0 <= p < q < order@.len() implies !row_before(
                ids@,
                okv,
                descending@,
                #[trigger] order@[q] as int,
                #[trigger] order@[p] as int,
            ) && (row_before(ids@, okv, descending@, order@[p] as int, order@[q] as int)
                || order@[p] < order@[q]) by {
                let old_p = if p < pos {
                    p
                } else {
                    p - 1
                };
                let old_q = if q < pos {
                    q
                } else {
                    q - 1
                };
                if p != pos && q != pos {
                    assert(order@[p] == before[old_p]);
                    assert(order@[q] == before[old_q]);
                } else if q == pos {
                    assert(order@[p] == before[p]);
                } else {
                    assert(order@[q] == before[q - 1]);
                }
            }
            assert forall|k: int| 0 <= k < order@.len() implies (#[trigger] order@[k]) < i
                + 1 by {
                if k < pos {
                    assert(order@[k] == before[k]);
                } else if k > pos {
                    assert(order@[k] == before[k - 1]);
                }
            }
        }
        i += 1;
    }
    order
}

/// The rows at the places that `order` lists.
pub open spec fn rows_at(rows: Seq<Seq<Option<i64>>>, order: Seq<usize>) -> Seq<
    Seq<Option<i64>>,
> {
    Seq::new(order.len(), |k: int| rows[order[k] as int])
}

/// Two lists that hold the same row numbers equally often pick the same
/// rows equally often.
pub proof fn lemma_same_numbers_same_rows(rows: Seq<Seq<Option<i64>>>, a: Seq<usize>, b: Seq<usize>)
    requires
        a.to_multiset() == b.to_multiset(),
    ensures
        rows_at(rows, a).to_multiset() == rows_at(rows, b).to_multiset(),
    decreases a.len(),
{
    to_multiset_len(a);
    to_multiset_len(b);
    if a.len() == 0 {
        assert(rows_at(rows, a) =~= rows_at(rows, b));
    } else {
        let x = a.last();
        let shorter = a.drop_last();
        assert(a =~= shorter.push(x));
        to_multiset_build(shorter, x);
        to_multiset_contains(a, x);
        to_multiset_contains(b, x);
        assert(a.contains(x));
        assert(b.contains(x));
        let j = choose|j: int| 0 <= j < b.len() && b[j] == x;
        let rest = b.remove(j);
        to_multiset_remove(b, j);
        assert(shorter.to_multiset() =~= a.to_multiset().remove(x));
        assert(rest.to_multiset() =~= shorter.to_multiset());
        lemma_same_numbers_same_rows(rows, shorter, rest);
        let picked_a = rows_at(rows, a);
        let picked_b = rows_at(rows, b);
        assert(picked_a =~= rows_at(rows, shorter).push(rows[x as int]));
        to_multiset_build(rows_at(rows, shorter), rows[x as int]);
        assert(rows_at(rows, rest) =~= picked_b.remove(j));
        to_multiset_remove(picked_b, j);
        to_multiset_contains(picked_b, rows[x as int]);
        assert(picked_b.contains(rows[x as int])) by {
            assert(picked_b[j] == rows[x as int]);
        }
        assert(picked_b.to_multiset() =~= rows_at(rows, rest).to_multiset().insert(rows[x as int]));
    }
}

/// An order that holds every row number once picks every row once: the rows
/// in that order are, as a multiset, the rows themselves.
pub proof fn lemma_rearranged_rows(rows: Seq<Seq<Option<i64>>>, order: Seq<usize>)
    requires
        rows.len() <= usize::MAX,
        order.to_multiset() == iota(rows.len()).to_multiset(),
    ensures
        rows_at(rows, order).to_multiset() == rows.to_multiset(),
{
    lemma_same_numbers_same_rows(rows, order, iota(rows.len()));
    assert(rows_at(rows, iota(rows.len())) =~= rows);
}

} // verus!
