//! The blocking sink that evaluates window functions over partitioned and
//! ordered rows.

use vstd::prelude::*;
use crate::container::{MicroPartition, TableState};
use crate::engine::{
    BoundParams,
    BoundWindowExpr,
    Windowed,
    evaluate_windows,
    extend_schema,
    extended_fields,
    windowed,
};
use crate::eval::{all_resolvable, all_resolved, bind, bind_list, resolvable, resolved};
use crate::expr::{Expr, WindowExpr};
use crate::schema::{DataType, Field, Schema};
use crate::table::{Row, Table, copy_row};
use crate::window::keys_view;

verus! {

/// Why the sink could not produce its output.
#[derive(Clone, Copy, Debug, PartialEq, Eq, Structural)]
pub enum EngineError {
    /// An expression does not resolve against the schema of the rows.
    TypeError,
    /// The window has no partition keys.
    ValueError,
}

/// Whether every input of a window function resolves against the fields.
pub open spec fn window_resolvable(w: WindowExpr, fields: Seq<Field>) -> bool {
    match w {
        WindowExpr::Agg(agg) => resolvable(agg.input, fields),
        WindowExpr::Offset { input, default, .. } => resolvable(input, fields) && (default matches Some(
            d,
        ) ==> resolvable(d, fields)),
        _ => true,
    }
}

/// The window function with its inputs resolved against the fields.
pub open spec fn window_resolved(w: WindowExpr, fields: Seq<Field>) -> BoundWindowExpr {
    match w {
        WindowExpr::Agg(agg) => BoundWindowExpr::Agg {
            kind: agg.kind,
            input: resolved(agg.input, fields),
        },
        WindowExpr::RowNumber => BoundWindowExpr::RowNumber,
        WindowExpr::Rank => BoundWindowExpr::Rank,
        WindowExpr::DenseRank => BoundWindowExpr::DenseRank,
        WindowExpr::Offset { input, offset, default } => BoundWindowExpr::Offset {
            input: resolved(input, fields),
            offset,
            default: match default {
                Some(d) => Some(resolved(d, fields)),
                None => None,
            },
        },
    }
}

/// Resolves the inputs of a window function against a schema.
pub fn bind_window(w: &WindowExpr, schema: &Schema) -> (r: Option<BoundWindowExpr>)
    ensures
        r is Some <==> window_resolvable(*w, schema.fields@),
        r matches Some(b) ==> b == window_resolved(*w, schema.fields@) && b.fits(
            schema.fields@.len(),
        ),
{
    match w {
        WindowExpr::Agg(agg) => match bind(&agg.input, schema) {
            Some(input) => Some(BoundWindowExpr::Agg { kind: agg.kind, input }),
            None => None,
        },
        WindowExpr::RowNumber => Some(BoundWindowExpr::RowNumber),
        WindowExpr::Rank => Some(BoundWindowExpr::Rank),
        WindowExpr::DenseRank => Some(BoundWindowExpr::DenseRank),
        WindowExpr::Offset { input, offset, default } => match bind(input, schema) {
            Some(bi) => match default {
                Some(d) => match bind(d, schema) {
                    Some(c) => Some(
                        BoundWindowExpr::Offset { input: bi, offset: *offset, default: Some(c) },
                    ),
                    None => None,
                },
                None => Some(BoundWindowExpr::Offset { input: bi, offset: *offset, default: None }),
            },
            None => None,
        },
    }
}

/// The batches that one pipeline lane has accumulated. With `n` buckets,
/// batch `i` of a lane lies in bucket `i % n`.
#[derive(Debug)]
pub struct WindowState {
    pub batches: Vec<Table>,
}

/// The rows of the first `upto` batches that lie in bucket `b` of `n`.
pub open spec fn batch_rows(batches: Seq<Table>, n: int, b: int, upto: int) -> Seq<
    Seq<Option<i64>>,
>
    decreases upto,
{
    if upto <= 0 {
        Seq::empty()
    } else if (upto - 1) % n == b {
        batch_rows(batches, n, b, upto - 1) + batches[upto - 1].cells()
    } else {
        batch_rows(batches, n, b, upto - 1)
    }
}

/// The number of the first `upto` batches that lie in bucket `b` of `n`.
pub open spec fn batch_count(batches: Seq<Table>, n: int, b: int, upto: int) -> nat
    decreases upto,
{
    if upto <= 0 {
        0
    } else if (upto - 1) % n == b {
        batch_count(batches, n, b, upto - 1) + 1
    } else {
        batch_count(batches, n, b, upto - 1)
    }
}

/// The rows of bucket `b` of `n` over the first `upto` lanes, lane after
/// lane.
pub open spec fn bucket_rows(states: Seq<WindowState>, n: int, b: int, upto: int) -> Seq<
    Seq<Option<i64>>,
>
    decreases upto,
{
    if upto <= 0 {
        Seq::empty()
    } else {
        bucket_rows(states, n, b, upto - 1) + batch_rows(
            states[upto - 1].batches@,
            n,
            b,
            states[upto - 1].batches@.len() as int,
        )
    }
}

/// The number of batches in bucket `b` of `n` over the first `upto` lanes.
pub open spec fn bucket_count(states: Seq<WindowState>, n: int, b: int, upto: int) -> nat
    decreases upto,
{
    if upto <= 0 {
        0
    } else {
        bucket_count(states, n, b, upto - 1) + batch_count(
            states[upto - 1].batches@,
            n,
            b,
            states[upto - 1].batches@.len() as int,
        )
    }
}

/// Every batch is well formed and has the given fields.
pub open spec fn batches_have(states: Seq<WindowState>, fields: Seq<Field>) -> bool {
    forall|s: int, i: int|
        0 <= s < states.len() && 0 <= i < states[s].batches@.len() ==> (
        #[trigger] states[s].batches@[i]).wf() && states[s].batches@[i].schema.fields@ == fields
}

/// The rows of bucket `b` in one table, or nothing where no lane holds a
/// batch of that bucket.
pub fn gather_bucket(states: &Vec<WindowState>, n: usize, b: usize, schema: &Schema) -> (r: Option<
    Table,
>)
    requires
        b < n,
        batches_have(states@, schema.fields@),
    ensures
        r is Some <==> bucket_count(states@, n as int, b as int, states@.len() as int) > 0,
        r matches Some(t) ==> t.wf() && t.schema.fields@ == schema.fields@ && t.cells()
            == bucket_rows(states@, n as int, b as int, states@.len() as int),
{
    let mut rows: Vec<Row> = Vec::new();
    let mut count: usize = 0;
    let mut s: usize = 0;
    while s < states.len()
        invariant
            s <= states@.len(),
            b < n,
            batches_have(states@, schema.fields@),
            count > 0 <==> bucket_count(states@, n as int, b as int, s as int) > 0,
            keys_view(rows@) == bucket_rows(states@, n as int, b as int, s as int),
            forall|r: int| 0 <= r < rows@.len() ==> (#[trigger] rows@[r])@.len() == schema.fields@.len(),
        decreases states@.len() - s,
    {
        let state = &states[s];
        let ghost before = keys_view(rows@);
        let ghost count_before = count;
        let mut i: usize = 0;
        while i < state.batches.len()
            invariant
                i <= state.batches@.len(),
                s < states@.len(),
                *state == states@[s as int],
                b < n,
                batches_have(states@, schema.fields@),
                count > 0 <==> (count_before > 0 || batch_count(
                    state.batches@,
                    n as int,
                    b as int,
                    i as int,
                ) > 0),
                keys_view(rows@) == before + batch_rows(state.batches@, n as int, b as int, i as int),
                forall|r: int|
                    0 <= r < rows@.len() ==> (#[trigger] rows@[r])@.len() == schema.fields@.len(),
            decreases state.batches@.len() - i,
        {
            if i % n == b {
                let batch = &state.batches[i];
                assert(states@[s as int].batches@[i as int].wf());
                let ghost start = keys_view(rows@);
                let mut r: usize = 0;
                while r < batch.rows.len()
                    invariant
                        r <= batch.rows@.len(),
                        batch.wf(),
                        batch.schema.fields@ == schema.fields@,
                        keys_view(rows@) == start + batch.cells().take(r as int),
                        forall|q: int|
                            0 <= q < rows@.len() ==> (#[trigger] rows@[q])@.len()
                                == schema.fields@.len(),
                    decreases batch.rows@.len() - r,
                {
                    let ghost prev = rows@;
                    assert(batch.rows@[r as int]@.len() == batch.width());
                    rows.push(copy_row(&batch.rows[r]));
                    r += 1;
                    assert(keys_view(rows@) =~= keys_view(prev).push(batch.rows@[r - 1]@));
                    assert(batch.cells().take(r as int) =~= batch.cells().take(r - 1).push(
                        batch.cells()[r - 1],
                    ));
                    assert(keys_view(rows@) =~= start + batch.cells().take(r as int));
                    assert forall|q: int| 0 <= q < rows@.len() implies (#[trigger] rows@[q])@.len()
                        == schema.fields@.len() by {
                        if q < prev.len() {
                            assert(rows@[q] == prev[q]);
                        }
                    }
                }
                assert(batch.cells().take(batch.rows@.len() as int) =~= batch.cells());
                if count == 0 {
                    count = 1;
                }
                assert(keys_view(rows@) =~= before + batch_rows(
                    state.batches@,
                    n as int,
                    b as int,
                    i + 1,
                ));
            }
            i += 1;
        }
        s += 1;
    }
    if count == 0 {
        None
    } else {
        let table = Table { schema: schema.duplicate(), rows };
        Some(table)
    }
}

/// The sink that evaluates window functions over rows partitioned by keys
/// and ordered within each partition.
#[derive(Debug)]
pub struct WindowPartitionAndOrderBySink {
    pub window_exprs: Vec<WindowExpr>,
    /// The output name of each window function.
    pub aliases: Vec<String>,
    pub partition_by: Vec<Expr>,
    pub order_by: Vec<Expr>,
    /// One flag per ordering expression; nulls sort to the same side.
    pub descending: Vec<bool>,
    /// The schema of the container that is returned where no lane holds a
    /// batch.
    pub original_schema: Schema,
}

/// The buckets among the first `upto` of `n` that hold a batch.
pub open spec fn nonempty_buckets(states: Seq<WindowState>, n: int, upto: int) -> Seq<int>
    decreases upto,
{
    if upto <= 0 {
        Seq::empty()
    } else if bucket_count(states, n, upto - 1, states.len() as int) > 0 {
        nonempty_buckets(states, n, upto - 1).push(upto - 1)
    } else {
        nonempty_buckets(states, n, upto - 1)
    }
}

impl WindowPartitionAndOrderBySink {
    pub fn new(
        window_exprs: Vec<WindowExpr>,
        aliases: Vec<String>,
        partition_by: Vec<Expr>,
        order_by: Vec<Expr>,
        descending: Vec<bool>,
        schema: Schema,
    ) -> (r: Result<Self, EngineError>)
        ensures
            r == Ok::<Self, EngineError>(
                WindowPartitionAndOrderBySink {
                    window_exprs,
                    aliases,
                    partition_by,
                    order_by,
                    descending,
                    original_schema: schema,
                },
            ),
    {
        Ok(
            WindowPartitionAndOrderBySink {
                window_exprs,
                aliases,
                partition_by,
                order_by,
                descending,
                original_schema: schema,
            },
        )
    }

    pub fn name(&self) -> (r: &'static str)
        ensures
            r@ == "WindowPartitionAndOrderBy"@,
    {
        "WindowPartitionAndOrderBy"
    }

    /// The state of a lane that has seen no batch.
    pub fn make_state(&self) -> (r: WindowState)
        ensures
            r.batches@.len() == 0,
    {
        WindowState { batches: Vec::new() }
    }

    /// Accumulates a batch in the state of a lane.
    pub fn sink(&self, input: Table, state: WindowState) -> (r: WindowState)
        ensures
            r.batches@ == state.batches@.push(input),
    {
        let mut next = state;
        next.batches.push(input);
        next
    }

    /// The number of functions that have an output name.
    pub open spec fn function_count(self) -> nat {
        if self.window_exprs@.len() <= self.aliases@.len() {
            self.window_exprs@.len()
        } else {
            self.aliases@.len()
        }
    }

    /// Why a bucket with the given fields cannot be processed, if it cannot:
    /// a type error where an expression does not resolve, else a value error
    /// where there are no partition keys.
    pub open spec fn bucket_error(self, fields: Seq<Field>) -> Option<EngineError> {
        if !all_resolvable(self.partition_by@, fields) || !all_resolvable(self.order_by@, fields)
            || !(forall|i: int|
            0 <= i < self.window_exprs@.len() ==> window_resolvable(
                #[trigger] self.window_exprs@[i],
                fields,
            )) {
            Some(EngineError::TypeError)
        } else if self.partition_by@.len() == 0 {
            Some(EngineError::ValueError)
        } else {
            None
        }
    }

    /// Whether `p` holds the parameters of the sink resolved against the
    /// fields.
    pub open spec fn params_bind(self, fields: Seq<Field>, p: BoundParams) -> bool {
        &&& p.partition_by@ == all_resolved(self.partition_by@, fields)
        &&& p.order_by@ == all_resolved(self.order_by@, fields)
        &&& p.descending@ == self.descending@
        &&& p.functions@.len() == self.function_count()
        &&& forall|i: int|
            0 <= i < p.functions@.len() ==> (#[trigger] p.functions@[i]) == window_resolved(
                self.window_exprs@[i],
                fields,
            )
    }

    /// Resolves the parameters of the sink against the schema of a bucket.
    pub fn bind_params(&self, schema: &Schema) -> (r: Result<BoundParams, EngineError>)
        ensures
            match self.bucket_error(schema.fields@) {
                Some(e) => r == Err::<BoundParams, EngineError>(e),
                None => r matches Ok(p) && self.params_bind(schema.fields@, p) && p.fits(
                    schema.fields@.len(),
                ),
            },
    {
        let partition_by = match bind_list(&self.partition_by, schema) {
            Some(cols) => cols,
            None => {
                return Err(EngineError::TypeError);
            },
        };
        let order_by = match bind_list(&self.order_by, schema) {
            Some(cols) => cols,
            None => {
                return Err(EngineError::TypeError);
            },
        };
        let mut bound: Vec<BoundWindowExpr> = Vec::new();
        let mut i: usize = 0;
        while i < self.window_exprs.len()
            invariant
                i <= self.window_exprs@.len(),
                bound@.len() == i,
                forall|j: int|
                    0 <= j < i ==> window_resolvable(
                        #[trigger] self.window_exprs@[j],
                        schema.fields@,
                    ),
                forall|j: int|
                    0 <= j < i ==> (#[trigger] bound@[j]) == window_resolved(
                        self.window_exprs@[j],
                        schema.fields@,
                    ) && bound@[j].fits(schema.fields@.len()),
            decreases self.window_exprs@.len() - i,
        {
            match bind_window(&self.window_exprs[i], schema) {
                Some(b) => bound.push(b),
                None => {
                    assert(!window_resolvable(self.window_exprs@[i as int], schema.fields@));
                    return Err(EngineError::TypeError);
                },
            }
            i += 1;
        }
        if self.partition_by.len() == 0 {
            return Err(EngineError::ValueError);
        }
        let m: usize = if self.window_exprs.len() <= self.aliases.len() {
            self.window_exprs.len()
        } else {
            self.aliases.len()
        };
        let ghost all = bound@;
        bound.truncate(m);
        assert(bound@ =~= all.take(m as int));
        let mut descending: Vec<bool> = Vec::new();
        let mut d: usize = 0;
        while d < self.descending.len()
            invariant
                d <= self.descending@.len(),
                descending@ == self.descending@.take(d as int),
            decreases self.descending@.len() - d,
        {
            descending.push(self.descending[d]);
            d += 1;
            assert(descending@ =~= self.descending@.take(d as int));
        }
        assert(descending@ =~= self.descending@);
        Ok(BoundParams { partition_by, order_by, descending, functions: bound })
    }

    /// The output names of the functions that have one.
    pub fn output_names(&self) -> (names: Vec<String>)
        ensures
            names@ == self.aliases@.take(self.function_count() as int),
    {
        let m: usize = if self.window_exprs.len() <= self.aliases.len() {
            self.window_exprs.len()
        } else {
            self.aliases.len()
        };
        let mut names: Vec<String> = Vec::new();
        let mut i: usize = 0;
        while i < m
            invariant
                i <= m,
                m <= self.aliases@.len(),
                names@ == self.aliases@.take(i as int),
            decreases m - i,
        {
            names.push(self.aliases[i].clone());
            i += 1;
            assert(names@ =~= self.aliases@.take(i as int));
        }
        names
    }

    /// The schema of the output: the fields of the input followed by one
    /// integer column per function that has an output name.
    pub open spec fn output_schema(self, fields: Seq<Field>) -> Seq<(Seq<char>, DataType)> {
        extended_fields(fields, self.aliases@.take(self.function_count() as int))
    }

    /// Whether `out` is what the sink makes of a bucket with the given
    /// fields and cells: the windowed rows, under the fields of the bucket
    /// followed by one integer column per function.
    pub open spec fn bucket_result(
        self,
        fields: Seq<Field>,
        cells: Seq<Seq<Option<i64>>>,
        out: Table,
    ) -> bool {
        &&& out.schema@ == self.output_schema(fields)
        &&& out.wf()
        &&& exists|p: BoundParams, w: Windowed|
            #![trigger windowed(cells, p, w)]
            self.params_bind(fields, p) && windowed(cells, p, w) && out.rows@ == w.rows@
    }

    /// Processes one bucket: resolves the parameters against its schema and
    /// evaluates the window functions over its rows.
    pub fn process_bucket(&self, bucket: Table) -> (r: Result<Table, EngineError>)
        requires
            bucket.wf(),
        ensures
            match self.bucket_error(bucket.schema.fields@) {
                Some(e) => r == Err::<Table, EngineError>(e),
                None => r matches Ok(out) && self.bucket_result(
                    bucket.schema.fields@,
                    bucket.cells(),
                    out,
                ),
            },
    {
        let params = match self.bind_params(&bucket.schema) {
            Ok(p) => p,
            Err(e) => {
                return Err(e);
            },
        };
        let names = self.output_names();
        let schema = extend_schema(&bucket.schema, &names);
        let w = evaluate_windows(&bucket, &params);
        let ghost whole = w;
        let out = Table { schema, rows: w.rows };
        proof {
            assert(windowed(bucket.cells(), params, whole));
            assert forall|k: int| 0 <= k < out.rows@.len() implies (#[trigger] out.rows@[k])@.len()
                == out.width() by {
                let source = bucket.rows@[whole.order@[k] as int];
                assert(source@.len() == bucket.width());
                assert(bucket.cells()[whole.order@[k] as int] == source@);
            }
        }
        Ok(out)
    }
}

/// The list of buckets that hold a batch only grows with the number of
/// buckets looked at.
pub proof fn lemma_nonempty_buckets_grow(states: Seq<WindowState>, n: int, a: int, b: int)
    requires
        0 <= a <= b,
    ensures
        nonempty_buckets(states, n, a).len() <= nonempty_buckets(states, n, b).len(),
    decreases b - a,
{
    if a < b {
        lemma_nonempty_buckets_grow(states, n, a, b - 1);
    }
}

impl WindowPartitionAndOrderBySink {
    /// Whether `r` is what finalizing the lanes' states over `n` buckets
    /// must return, where every batch has the given fields. Without any
    /// batch it is an empty container under the schema given to the sink.
    /// Otherwise it is the failure of the buckets, or a container with one
    /// table per bucket that holds a batch, in the order of the buckets;
    /// the container and each of its tables are under the fields of the
    /// batches followed by one integer column per function.
    pub open spec fn finalized(
        self,
        states: Seq<WindowState>,
        n: int,
        fields: Seq<Field>,
        r: Result<Option<MicroPartition>, EngineError>,
    ) -> bool {
        let buckets = nonempty_buckets(states, n, n);
        if buckets.len() == 0 {
            r matches Ok(Some(mp)) && mp.schema@ == self.original_schema@ && mp.statistics is None
                && mp.is_loaded() && mp.tables().len() == 0
        } else {
            match self.bucket_error(fields) {
                Some(e) => r == Err::<Option<MicroPartition>, EngineError>(e),
                None => r matches Ok(Some(mp)) && mp.schema@ == self.output_schema(fields)
                    && mp.statistics is None && mp.is_loaded() && mp.tables().len()
                    == buckets.len() && forall|i: int|
                    0 <= i < buckets.len() ==> self.bucket_result(
                        fields,
                        bucket_rows(states, n, buckets[i], states.len() as int),
                        #[trigger] mp.tables()[i],
                    ),
            }
        }
    }

    /// Merges the states of all lanes and evaluates the window functions
    /// bucket by bucket. Every failure ends the whole operation.
    pub fn finalize(&self, states: Vec<WindowState>, num_partitions: usize) -> (r: Result<
        Option<MicroPartition>,
        EngineError,
    >)
        requires
            num_partitions > 0,
            exists|fields: Seq<Field>| batches_have(states@, fields),
        ensures
            forall|fields: Seq<Field>|
                batches_have(states@, fields) ==> self.finalized(
                    states@,
                    num_partitions as int,
                    fields,
                    r,
                ),
    {
        let n: usize = num_partitions;
        let mut first: usize = 0;
        while first < states.len() && states[first].batches.len() == 0
            invariant
                first <= states@.len(),
                forall|s: int| 0 <= s < first ==> (#[trigger] states@[s]).batches@.len() == 0,
            decreases states@.len() - first,
        {
            first += 1;
        }
        let schema: &Schema = if first < states.len() {
            &states[first].batches[0].schema
        } else {
            &self.original_schema
        };
        let ghost known = schema.fields@;
        proof {
            let witness = choose|fields: Seq<Field>| batches_have(states@, fields);
            if first < states@.len() {
                assert(states@[first as int].batches@[0].wf());
                assert(known == witness);
            }
            assert(batches_have(states@, known));
        }
        let mut tables: Vec<Table> = Vec::new();
        let mut b: usize = 0;
        while b < n
            invariant
                b <= n,
                n == num_partitions,
                known == schema.fields@,
                batches_have(states@, known),
                first <= states@.len(),
                first < states@.len() ==> states@[first as int].batches@.len() > 0,
                forall|s: int| 0 <= s < first ==> (#[trigger] states@[s]).batches@.len() == 0,
                tables@.len() == nonempty_buckets(states@, n as int, b as int).len(),
                tables@.len() > 0 ==> self.bucket_error(known) is None,
                forall|i: int|
                    0 <= i < tables@.len() ==> self.bucket_result(
                        known,
                        bucket_rows(
                            states@,
                            n as int,
                            nonempty_buckets(states@, n as int, b as int)[i],
                            states@.len() as int,
                        ),
                        #[trigger] tables@[i],
                    ),
            decreases n - b,
        {
            let ghost before = tables@;
            match gather_bucket(&states, n, b, schema) {
                None => {},
                Some(bucket) => {
                    match self.process_bucket(bucket) {
                        Ok(out) => {
                            tables.push(out);
                        },
                        Err(e) => {
                            proof {
                                lemma_nonempty_buckets_grow(states@, n as int, b + 1, n as int);
                                assert forall|fields: Seq<Field>|
                                    batches_have(states@, fields) implies self.finalized(
                                    states@,
                                    n as int,
                                    fields,
                                    Err::<Option<MicroPartition>, EngineError>(e),
                                ) by {
                                    if first < states@.len() {
                                        assert(states@[first as int].batches@[0].wf());
                                        assert(fields == known);
                                    } else {
                                        lemma_empty_bucket(
                                            states@,
                                            n as int,
                                            b as int,
                                            states@.len() as int,
                                        );
                                    }
                                }
                            }
                            return Err(e);
                        },
                    }
                },
            }
            b += 1;
            proof {
                assert forall|i: int| 0 <= i < tables@.len() implies self.bucket_result(
                    known,
                    bucket_rows(
                        states@,
                        n as int,
                        nonempty_buckets(states@, n as int, b as int)[i],
                        states@.len() as int,
                    ),
                    #[trigger] tables@[i],
                ) by {
                    if i < before.len() {
                        assert(tables@[i] == before[i]);
                    }
                }
            }
        }
        let ghost produced = tables@;
        let result = if tables.len() == 0 {
            MicroPartition::empty(self.original_schema.duplicate())
        } else {
            let names = self.output_names();
            MicroPartition::new_loaded(extend_schema(schema, &names), tables, None)
        };
        proof {
            assert forall|fields: Seq<Field>| batches_have(states@, fields) implies self.finalized(
                states@,
                n as int,
                fields,
                Ok::<Option<MicroPartition>, EngineError>(Some(result)),
            ) by {
                if produced.len() > 0 {
                    if first < states@.len() {
                        assert(states@[first as int].batches@[0].wf());
                        assert(fields == known);
                    } else {
                        lemma_no_batches(states@, n as int, n as int);
                    }
                }
            }
        }
        Ok(Some(result))
    }
}

/// Where no lane holds a batch, no bucket does.
pub proof fn lemma_no_batches(states: Seq<WindowState>, n: int, upto: int)
    requires
        forall|s: int| 0 <= s < states.len() ==> (#[trigger] states[s]).batches@.len() == 0,
    ensures
        nonempty_buckets(states, n, upto).len() == 0,
    decreases upto,
{
    if upto > 0 {
        lemma_no_batches(states, n, upto - 1);
        lemma_empty_bucket(states, n, upto - 1, states.len() as int);
    }
}

/// Where no lane holds a batch, a bucket counts none.
pub proof fn lemma_empty_bucket(states: Seq<WindowState>, n: int, b: int, upto: int)
    requires
        forall|s: int| 0 <= s < states.len() ==> (#[trigger] states[s]).batches@.len() == 0,
        upto <= states.len(),
    ensures
        bucket_count(states, n, b, upto) == 0,
    decreases upto,
{
    if upto > 0 {
        lemma_empty_bucket(states, n, b, upto - 1);
        assert(states[upto - 1].batches@.len() == 0);
    }
}

} // verus!
