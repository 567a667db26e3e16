//! Evaluation of window functions over the partitions of one table.

use vstd::prelude::*;
use crate::eval::{BoundExpr, all_fit, eval_column, eval_row, row_values, values_of};
use crate::expr::AggKind;
use crate::partition::{
    identifies,
    iota,
    lemma_rearranged_rows,
    order_rows,
    ordered,
    partition_ids,
    rows_at,
};
use crate::schema::{DataType, Field, Schema};
use crate::table::{Row, Table, copy_row};
use crate::window::{
    Key,
    agg_upto,
    keys_view,
    offset_at,
    rank_at,
    window_offset,
    window_rank,
    window_row_number,
    window_running_agg,
};

verus! {

/// A window function whose inputs are resolved against a schema.
#[derive(Debug)]
pub enum BoundWindowExpr {
    Agg { kind: AggKind, input: BoundExpr },
    RowNumber,
    Rank,
    DenseRank,
    Offset { input: BoundExpr, offset: i64, default: Option<BoundExpr> },
}

impl BoundWindowExpr {
    /// Every column that the function reads exists in a table of that width.
    pub open spec fn fits(self, width: nat) -> bool {
        match self {
            BoundWindowExpr::Agg { input, .. } => input.fits(width),
            BoundWindowExpr::Offset { input, default, .. } => input.fits(width) && (default matches Some(
                d,
            ) ==> d.fits(width)),
            _ => true,
        }
    }
}

/// The parameters of a window, resolved against a schema.
#[derive(Debug)]
pub struct BoundParams {
    pub partition_by: Vec<BoundExpr>,
    pub order_by: Vec<BoundExpr>,
    pub descending: Vec<bool>,
    pub functions: Vec<BoundWindowExpr>,
}

impl BoundParams {
    /// Every column that the parameters name exists in a table of that width.
    pub open spec fn fits(self, width: nat) -> bool {
        &&& all_fit(self.partition_by@, width)
        &&& all_fit(self.order_by@, width)
        &&& forall|i: int|
            0 <= i < self.functions@.len() ==> (#[trigger] self.functions@[i]).fits(width)
    }
}

/// A whole number as a cell.
pub open spec fn number_cell(x: int) -> Option<i64> {
    Some(x as i64)
}

/// The value that function `f` gives row `i` of a partition with the given
/// rows, which are ordered by `order_keys`.
pub open spec fn function_value(
    f: BoundWindowExpr,
    rows: Seq<Seq<Option<i64>>>,
    order_keys: Seq<Seq<Option<i64>>>,
    i: int,
) -> Option<i64> {
    match f {
        BoundWindowExpr::Agg { kind, input } => agg_upto(kind, values_of(rows, input), i),
        BoundWindowExpr::RowNumber => number_cell(i + 1),
        BoundWindowExpr::Rank => number_cell(rank_at(order_keys, i, false)),
        BoundWindowExpr::DenseRank => number_cell(rank_at(order_keys, i, true)),
        BoundWindowExpr::Offset { input, offset, default } => offset_at(
            values_of(rows, input),
            match default {
                Some(d) => Some(values_of(rows, d)),
                None => None,
            },
            offset as int,
            i,
        ),
    }
}

fn number_cells(numbers: &Vec<u64>) -> (cells: Vec<Option<i64>>)
    ensures
        cells@.len() == numbers@.len(),
        forall|i: int| 0 <= i < cells@.len() ==> cells@[i] == number_cell(numbers@[i] as int),
{
    let mut cells: Vec<Option<i64>> = Vec::new();
    let mut i: usize = 0;
    while i < numbers.len()
        invariant
            i <= numbers@.len(),
            cells@.len() == i,
            forall|j: int| 0 <= j < i ==> cells@[j] == number_cell(numbers@[j] as int),
        decreases numbers@.len() - i,
    {
        let v: u64 = numbers[i];
        cells.push(Some(#[verifier::truncate] (v as i64)));
        i += 1;
    }
    cells
}

/// The column that a window function produces for one partition, whose rows
/// are given in their order.
pub fn evaluate_function(f: &BoundWindowExpr, rows: &Vec<Row>, order_keys: &Vec<Key>) -> (col: Vec<
    Option<i64>,
>)
    requires
        rows@.len() == order_keys@.len(),
        forall|r: int| 0 <= r < rows@.len() ==> f.fits((#[trigger] rows@[r])@.len() as nat),
    ensures
        col@.len() == rows@.len(),
        forall|i: int|
            0 <= i < col@.len() ==> col@[i] == function_value(
                *f,
                keys_view(rows@),
                keys_view(order_keys@),
                i,
            ),
{
    match f {
        BoundWindowExpr::Agg { kind, input } => {
            assert forall|r: int| 0 <= r < rows@.len() implies input.fits(
                (#[trigger] rows@[r])@.len() as nat,
            ) by {
                assert(f.fits(rows@[r]@.len() as nat));
            }
            let values = eval_column(rows, input);
            window_running_agg(*kind, &values)
        },
        BoundWindowExpr::RowNumber => {
            let numbers = window_row_number(rows.len());
            number_cells(&numbers)
        },
        BoundWindowExpr::Rank => {
            let numbers = window_rank(order_keys, false);
            number_cells(&numbers)
        },
        BoundWindowExpr::DenseRank => {
            let numbers = window_rank(order_keys, true);
            number_cells(&numbers)
        },
        BoundWindowExpr::Offset { input, offset, default } => {
            assert forall|r: int| 0 <= r < rows@.len() implies input.fits(
                (#[trigger] rows@[r])@.len() as nat,
            ) by {
                assert(f.fits(rows@[r]@.len() as nat));
            }
            let values = eval_column(rows, input);
            match default {
                Some(d) => {
                    assert forall|r: int| 0 <= r < rows@.len() implies d.fits(
                        (#[trigger] rows@[r])@.len() as nat,
                    ) by {
                        assert(f.fits(rows@[r]@.len() as nat));
                    }
                    let defaults = eval_column(rows, d);
                    window_offset(&values, *offset, Some(&defaults))
                },
                None => window_offset(&values, *offset, None),
            }
        },
    }
}

/// The partition number of the row at each place of `order`.
pub open spec fn in_order(ids: Seq<usize>, order: Seq<usize>) -> Seq<usize> {
    Seq::new(order.len(), |k: int| ids[order[k] as int])
}

/// The rows at the places `s..e` of `order`.
pub open spec fn picked(rows: Seq<Seq<Option<i64>>>, order: Seq<usize>, s: int, e: int) -> Seq<
    Seq<Option<i64>>,
> {
    Seq::new((e - s) as nat, |t: int| rows[order[s + t] as int])
}

/// The first place of the run of equal numbers that place `k` lies in.
pub open spec fn seg_start(ids: Seq<usize>, k: int) -> int
    decreases k,
{
    if k <= 0 {
        0
    } else if ids[k] != ids[k - 1] {
        k
    } else {
        seg_start(ids, k - 1)
    }
}

/// The place after the run of equal numbers that place `k` lies in.
pub open spec fn seg_end(ids: Seq<usize>, k: int) -> int
    decreases ids.len() - k,
{
    if k + 1 >= ids.len() {
        ids.len() as int
    } else if ids[k + 1] != ids[k] {
        k + 1
    } else {
        seg_end(ids, k + 1)
    }
}

proof fn lemma_seg_start(ids: Seq<usize>, s: int, k: int)
    requires
        0 <= s <= k < ids.len(),
        s == 0 || ids[s - 1] != ids[s],
        forall|t: int| s <= t <= k ==> ids[t] == ids[s],
    ensures
        seg_start(ids, k) == s,
    decreases k - s,
{
    if k > s {
        lemma_seg_start(ids, s, k - 1);
    }
}

proof fn lemma_seg_end(ids: Seq<usize>, k: int, e: int)
    requires
        0 <= k < e <= ids.len(),
        e == ids.len() || ids[e] != ids[e - 1],
        forall|t: int| k <= t < e ==> ids[t] == ids[k],
    ensures
        seg_end(ids, k) == e,
    decreases e - k,
{
    if k + 1 < e {
        lemma_seg_end(ids, k + 1, e);
    }
}

/// The row that leaves the engine at place `k`: the input row that `order`
/// puts there, followed by the value of every function for that row within
/// its partition.
pub open spec fn windowed_row(
    cells: Seq<Seq<Option<i64>>>,
    order_keys: Seq<Seq<Option<i64>>>,
    ids: Seq<usize>,
    order: Seq<usize>,
    functions: Seq<BoundWindowExpr>,
    k: int,
) -> Seq<Option<i64>> {
    let s = seg_start(in_order(ids, order), k);
    let e = seg_end(in_order(ids, order), k);
    cells[order[k] as int] + Seq::new(
        functions.len(),
        |j: int|
            function_value(
                functions[j],
                picked(cells, order, s, e),
                picked(order_keys, order, s, e),
                k - s,
            ),
    )
}

/// The key of every row: the values of the key expressions on it.
pub open spec fn keys_of(cells: Seq<Seq<Option<i64>>>, exprs: Seq<BoundExpr>) -> Seq<
    Seq<Option<i64>>,
> {
    Seq::new(cells.len(), |r: int| row_values(exprs, cells[r]))
}

/// The key of every row of a table: the values of the key expressions on
/// it.
pub fn table_keys(table: &Table, cols: &Vec<BoundExpr>) -> (keys: Vec<Key>)
    requires
        table.wf(),
        all_fit(cols@, table.width()),
    ensures
        keys_view(keys@) == keys_of(table.cells(), cols@),
{
    let mut keys: Vec<Key> = Vec::new();
    let mut r: usize = 0;
    while r < table.rows.len()
        invariant
            r <= table.rows@.len(),
            table.wf(),
            all_fit(cols@, table.width()),
            keys@.len() == r,
            forall|q: int| 0 <= q < r ==> (#[trigger] keys@[q])@ == row_values(cols@, table.rows@[q]@),
        decreases table.rows@.len() - r,
    {
        assert(table.rows@[r as int]@.len() == table.width());
        keys.push(eval_row(cols, &table.rows[r]));
        r += 1;
    }
    assert(keys_view(keys@) =~= keys_of(table.cells(), cols@));
    keys
}

/// The fields as pairs of name and type, followed by one integer column
/// per output name.
pub open spec fn extended_fields(fields: Seq<Field>, names: Seq<String>) -> Seq<
    (Seq<char>, DataType),
> {
    Seq::new(fields.len(), |i: int| fields[i].pair()) + Seq::new(
        names.len(),
        |j: int| (names[j]@, DataType::Int64),
    )
}

/// The schema of a table with one integer column added per output name.
pub fn extend_schema(schema: &Schema, names: &Vec<String>) -> (r: Schema)
    ensures
        r@ == extended_fields(schema.fields@, names@),
        r.fields@.len() == schema.fields@.len() + names@.len(),
{
    let mut r = schema.duplicate();
    let mut j: usize = 0;
    while j < names.len()
        invariant
            j <= names@.len(),
            r.fields@.len() == schema.fields@.len() + j,
            r@ == schema@ + Seq::new(j as nat, |i: int| (names@[i]@, DataType::Int64)),
        decreases names@.len() - j,
    {
        let ghost before = r@;
        let ghost fields_before = r.fields@;
        r.fields.push(Field::new(names[j].clone(), DataType::Int64));
        j += 1;
        assert forall|i: int| 0 <= i < r@.len() implies r@[i] == (schema@ + Seq::new(
            j as nat,
            |i: int| (names@[i]@, DataType::Int64),
        ))[i] by {
            if i < fields_before.len() {
                assert(r.fields@[i] == fields_before[i]);
                assert(r@[i] == before[i]);
            }
        }
        assert(r@ =~= schema@ + Seq::new(j as nat, |i: int| (names@[i]@, DataType::Int64)));
    }
    assert(r@ =~= extended_fields(schema.fields@, names@));
    r
}

/// What the engine makes of one table.
#[derive(Debug)]
pub struct Windowed {
    /// The output rows: input rows, each followed by its function values.
    pub rows: Vec<Row>,
    /// For each output row, the input row that it came from.
    pub order: Vec<usize>,
    /// For each input row, the number of its partition.
    pub partition_of: Vec<usize>,
}

/// Whether `col` holds the value of `f` for every row of a partition.
pub open spec fn column_matches(
    col: Seq<Option<i64>>,
    f: BoundWindowExpr,
    rows: Seq<Seq<Option<i64>>>,
    order_keys: Seq<Seq<Option<i64>>>,
) -> bool {
    &&& col.len() == rows.len()
    &&& forall|q: int| 0 <= q < col.len() ==> col[q] == function_value(f, rows, order_keys, q)
}

/// The function values of row `q` of a partition, for the first `m` functions.
pub open spec fn function_values(
    functions: Seq<BoundWindowExpr>,
    m: nat,
    rows: Seq<Seq<Option<i64>>>,
    order_keys: Seq<Seq<Option<i64>>>,
    q: int,
) -> Seq<Option<i64>> {
    Seq::new(m, |j: int| function_value(functions[j], rows, order_keys, q))
}

/// Whether `w` is what the window with parameters `params` makes of a table
/// with the given cells:
/// rows have the same partition number exactly when their partition keys
/// are equal; `order` holds every input row exactly once, partition after
/// partition and each partition by its ordering keys, rows that tie in the
/// order in which they came; and output row `k` is input row `order[k]`
/// followed by its function values.
pub open spec fn windowed(cells: Seq<Seq<Option<i64>>>, params: BoundParams, w: Windowed) -> bool {
    &&& identifies(keys_of(cells, params.partition_by@), w.partition_of@)
    &&& w.order@.len() == cells.len()
    &&& w.order@.to_multiset() == iota(cells.len()).to_multiset()
    &&& forall|k: int| 0 <= k < w.order@.len() ==> (#[trigger] w.order@[k]) < cells.len()
    &&& ordered(w.partition_of@, keys_of(cells, params.order_by@), params.descending@, w.order@)
    &&& w.rows@.len() == cells.len()
    &&& forall|k: int|
        0 <= k < w.rows@.len() ==> (#[trigger] w.rows@[k])@ == windowed_row(
            cells,
            keys_of(cells, params.order_by@),
            w.partition_of@,
            w.order@,
            params.functions@,
            k,
        )
}

/// Evaluates the window functions over one table.
///
/// The rows are grouped by the partition columns, the partitions are put in
/// order of first appearance and their rows ordered by the ordering columns,
/// and every function is evaluated over every partition. Each input row
/// leaves exactly once, followed by its function values.
pub fn evaluate_windows(table: &Table, params: &BoundParams) -> (w: Windowed)
    requires
        table.wf(),
        params.fits(table.width()),
    ensures
        windowed(table.cells(), *params, w),
{
    let n: usize = table.rows.len();
    let m: usize = params.functions.len();
    let pkeys = table_keys(table, &params.partition_by);
    let okeys = table_keys(table, &params.order_by);
    assert(pkeys@.len() == n) by {
        assert(keys_view(pkeys@).len() == keys_of(table.cells(), params.partition_by@).len());
    }
    assert(okeys@.len() == n) by {
        assert(keys_view(okeys@).len() == keys_of(table.cells(), params.order_by@).len());
    }
    let ids = partition_ids(&pkeys);
    let order = order_rows(&ids, &okeys, &params.descending);
    let ghost cells = table.cells();
    let ghost okv = keys_view(okeys@);
    let ghost ido = in_order(ids@, order@);
    let ghost fs = params.functions@;
    let mut out: Vec<Row> = Vec::new();
    let mut s: usize = 0;
    while s < n
        invariant
            s <= n,
            n == table.rows@.len(),
            m == params.functions@.len(),
            order@.len() == n,
            ids@.len() == n,
            okeys@.len() == n,
            forall|k: int| 0 <= k < order@.len() ==> (#[trigger] order@[k]) < n,
            table.wf(),
            params.fits(table.width()),
            cells == table.cells(),
            okv == keys_view(okeys@),
            ido == in_order(ids@, order@),
            fs == params.functions@,
            s == 0 || s == n || ido[s - 1] != ido[s as int],
            out@.len() == s,
            forall|k: int|
                0 <= k < s ==> (#[trigger] out@[k])@ == windowed_row(
                    cells,
                    okv,
                    ids@,
                    order@,
                    fs,
                    k,
                ),
        decreases n - s,
    {
        let first_id: usize = ids[order[s]];
        let mut e: usize = s + 1;
        while e < n && ids[order[e]] == first_id
            invariant
                s < e <= n,
                order@.len() == n,
                ids@.len() == n,
                forall|k: int| 0 <= k < order@.len() ==> (#[trigger] order@[k]) < n,
                ido == in_order(ids@, order@),
                first_id == ido[s as int],
                forall|t: int| s <= t < e ==> ido[t] == ido[s as int],
            decreases n - e,
        {
            e += 1;
        }
        let ghost part_rows = picked(cells, order@, s as int, e as int);
        let ghost part_okv = picked(okv, order@, s as int, e as int);
        let mut part: Vec<Row> = Vec::new();
        let mut part_keys: Vec<Key> = Vec::new();
        let mut t: usize = s;
        while t < e
            invariant
                s <= t <= e <= n,
                n == table.rows@.len(),
                order@.len() == n,
                okeys@.len() == n,
                forall|k: int| 0 <= k < order@.len() ==> (#[trigger] order@[k]) < n,
                cells == table.cells(),
                okv == keys_view(okeys@),
                part@.len() == t - s,
                part_keys@.len() == t - s,
                forall|q: int|
                    0 <= q < t - s ==> (#[trigger] part@[q])@ == cells[order@[s + q] as int],
                forall|q: int|
                    0 <= q < t - s ==> (#[trigger] part_keys@[q])@ == okv[order@[s + q] as int],
            decreases e - t,
        {
            let source: usize = order[t];
            part.push(copy_row(&table.rows[source]));
            part_keys.push(copy_row(&okeys[source]));
            t += 1;
        }
        assert(keys_view(part@) =~= part_rows);
        assert(keys_view(part_keys@) =~= part_okv);
        assert forall|r: int| 0 <= r < part@.len() implies (#[trigger] part@[r])@.len()
            == table.width() by {
            assert(part@[r]@ == cells[order@[s + r] as int]);
            assert(table.rows@[order@[s + r] as int]@.len() == table.width());
        }
        let mut cols: Vec<Vec<Option<i64>>> = Vec::new();
        let mut j: usize = 0;
        while j < m
            invariant
                j <= m,
                m == params.functions@.len(),
                fs == params.functions@,
                params.fits(table.width()),
                part@.len() == part_keys@.len(),
                keys_view(part@) == part_rows,
                keys_view(part_keys@) == part_okv,
                forall|r: int| 0 <= r < part@.len() ==> (#[trigger] part@[r])@.len() == table.width(),
                cols@.len() == j,
                forall|i: int|
                    0 <= i < j ==> column_matches((#[trigger] cols@[i])@, fs[i], part_rows, part_okv),
            decreases m - j,
        {
            assert(params.functions@[j as int].fits(table.width()));
            cols.push(evaluate_function(&params.functions[j], &part, &part_keys));
            j += 1;
        }
        let mut q: usize = 0;
        while q < e - s
            invariant
                q <= e - s,
                s < e <= n,
                m == params.functions@.len(),
                fs == params.functions@,
                order@.len() == n,
                ids@.len() == n,
                ido == in_order(ids@, order@),
                s == 0 || ido[s - 1] != ido[s as int],
                e == n || ido[e as int] != ido[e - 1],
                forall|t: int| s <= t < e ==> ido[t] == ido[s as int],
                part_rows == picked(cells, order@, s as int, e as int),
                part_okv == picked(okv, order@, s as int, e as int),
                part@.len() == e - s,
                keys_view(part@) == part_rows,
                cols@.len() == m,
                forall|i: int|
                    0 <= i < m ==> column_matches((#[trigger] cols@[i])@, fs[i], part_rows, part_okv),
                out@.len() == s + q,
                forall|k: int|
                    0 <= k < s + q ==> (#[trigger] out@[k])@ == windowed_row(
                        cells,
                        okv,
                        ids@,
                        order@,
                        fs,
                        k,
                    ),
            decreases e - s - q,
        {
            let mut row = copy_row(&part[q]);
            let ghost base = row@;
            assert(base == part_rows[q as int]) by {
                assert(keys_view(part@)[q as int] == part@[q as int]@);
            }
            let mut j: usize = 0;
            while j < m
                invariant
                    j <= m,
                    q < e - s,
                    cols@.len() == m,
                    part_rows.len() == e - s,
                    forall|i: int|
                        0 <= i < m ==> column_matches(
                            (#[trigger] cols@[i])@,
                            fs[i],
                            part_rows,
                            part_okv,
                        ),
                    row@ == base + function_values(fs, j as nat, part_rows, part_okv, q as int),
                decreases m - j,
            {
                assert(column_matches(cols@[j as int]@, fs[j as int], part_rows, part_okv));
                row.push(cols[j][q]);
                j += 1;
                assert(row@ =~= base + function_values(fs, j as nat, part_rows, part_okv, q as int));
            }
            proof {
                lemma_seg_start(ido, s as int, s + q);
                lemma_seg_end(ido, s + q, e as int);
                assert(row@ =~= windowed_row(cells, okv, ids@, order@, fs, s + q));
            }
            out.push(row);
            q += 1;
        }
        s = e;
    }
    Windowed { rows: out, order, partition_of: ids }
}

/// The first `width` cells of every row.
pub open spec fn leading(rows: Seq<Row>, width: int) -> Seq<Seq<Option<i64>>> {
    Seq::new(rows.len(), |k: int| rows[k]@.take(width))
}

/// Windowing loses no row and invents none: where every input row has
/// `width` cells, the output rows without their function values are, as a
/// multiset, the input rows.
pub proof fn lemma_windowing_keeps_rows(
    cells: Seq<Seq<Option<i64>>>,
    params: BoundParams,
    w: Windowed,
    width: int,
)
    requires
        cells.len() <= usize::MAX,
        windowed(cells, params, w),
        forall|r: int| 0 <= r < cells.len() ==> (#[trigger] cells[r]).len() == width,
    ensures
        leading(w.rows@, width).to_multiset() == cells.to_multiset(),
{
    lemma_rearranged_rows(cells, w.order@);
    assert(leading(w.rows@, width) =~= rows_at(cells, w.order@)) by {
        assert forall|k: int| 0 <= k < w.rows@.len() implies leading(w.rows@, width)[k] == rows_at(
            cells,
            w.order@,
        )[k] by {
            let source = cells[w.order@[k] as int];
            assert(w.rows@[k]@ == windowed_row(
                cells,
                keys_of(cells, params.order_by@),
                w.partition_of@,
                w.order@,
                params.functions@,
                k,
            ));
            assert(source.len() == width);
            assert(w.rows@[k]@.take(width) =~= source);
        }
    }
}

} // verus!
