//! Operations on data containers: filtering, evaluation of expression
//! lists, and casting to a schema.

use vstd::prelude::*;
use crate::container::{ColumnRange, MicroPartition, TableState, TableStatistics};
use crate::eval::{
    BoundExpr,
    lemma_position,
    position,
    resolvable,
    TruthValue,
    all_fit,
    all_resolvable,
    all_resolved,
    bind_list,
    combine,
    combined,
    lemma_false_predicate_selects_nothing,
    to_truth_value,
    truth_of,
    within,
};
use crate::expr::{BinaryOp, Expr};
use crate::plan::ScanTask;
use crate::schema::{DataType, Field, Schema, named};
use crate::table::{Row, Table, copy_row};
use crate::window::keys_view;

verus! {

/// Why an operation on a container failed.
#[derive(Clone, Copy, Debug, PartialEq, Eq, Structural)]
pub enum ContainerError {
    /// An expression does not resolve against the schema.
    TypeError,
    /// Two expressions produce a column of the same name.
    ValueError,
    /// The operation needs the rows of a container that is not read yet.
    NotLoaded,
}

/// Whether every predicate holds on the row.
pub open spec fn all_hold(predicates: Seq<BoundExpr>, row: Seq<Option<i64>>) -> bool {
    forall|i: int| 0 <= i < predicates.len() ==> (#[trigger] predicates[i]).holds(row)
}

/// Of the first `upto` rows, those on which every predicate holds, in order.
pub open spec fn kept(cells: Seq<Seq<Option<i64>>>, predicates: Seq<BoundExpr>, upto: int) -> Seq<
    Seq<Option<i64>>,
>
    decreases upto,
{
    if upto <= 0 {
        Seq::empty()
    } else if all_hold(predicates, cells[upto - 1]) {
        kept(cells, predicates, upto - 1).push(cells[upto - 1])
    } else {
        kept(cells, predicates, upto - 1)
    }
}

/// The range that statistics give the conjunction of the first `upto`
/// predicates, folded from the left.
pub open spec fn conjunction_range(
    predicates: Seq<BoundExpr>,
    stats: Seq<ColumnRange>,
    upto: int,
) -> ColumnRange
    decreases upto,
{
    if upto <= 1 {
        predicates[0].range(stats)
    } else {
        combined(
            BinaryOp::And,
            conjunction_range(predicates, stats, upto - 1),
            predicates[upto - 1].range(stats),
        )
    }
}

/// Whether every predicate holds on a row.
pub fn row_selected(predicates: &Vec<BoundExpr>, row: &Row) -> (r: bool)
    requires
        all_fit(predicates@, row@.len()),
    ensures
        r == all_hold(predicates@, row@),
{
    let mut i: usize = 0;
    while i < predicates.len()
        invariant
            i <= predicates@.len(),
            all_fit(predicates@, row@.len()),
            forall|j: int| 0 <= j < i ==> (#[trigger] predicates@[j]).holds(row@),
        decreases predicates@.len() - i,
    {
        assert(predicates@[i as int].fits(row@.len()));
        let keep = match predicates[i].eval(row) {
            Some(v) => v != 0,
            None => false,
        };
        if !keep {
            assert(!predicates@[i as int].holds(row@));
            return false;
        }
        i += 1;
    }
    true
}

/// The rows of a table on which every predicate holds, under the same
/// schema.
pub fn filter_table(table: &Table, predicates: &Vec<BoundExpr>) -> (out: Table)
    requires
        table.wf(),
        all_fit(predicates@, table.width()),
    ensures
        out.wf(),
        out.schema.fields@ == table.schema.fields@,
        out.cells() == kept(table.cells(), predicates@, table.rows@.len() as int),
{
    let mut rows: Vec<Row> = Vec::new();
    let mut r: usize = 0;
    while r < table.rows.len()
        invariant
            r <= table.rows@.len(),
            table.wf(),
            all_fit(predicates@, table.width()),
            keys_view(rows@) == kept(table.cells(), predicates@, r as int),
            forall|q: int| 0 <= q < rows@.len() ==> (#[trigger] rows@[q])@.len() == table.width(),
        decreases table.rows@.len() - r,
    {
        assert(table.rows@[r as int]@.len() == table.width());
        let ghost before = rows@;
        if row_selected(predicates, &table.rows[r]) {
            rows.push(copy_row(&table.rows[r]));
            assert(keys_view(rows@) =~= keys_view(before).push(table.cells()[r as int]));
            assert forall|q: int| 0 <= q < rows@.len() implies (#[trigger] rows@[q])@.len()
                == table.width() by {
                if q < before.len() {
                    assert(rows@[q] == before[q]);
                }
            }
        }
        r += 1;
    }
    let out = Table { schema: table.schema.duplicate(), rows };
    out
}

fn conjunction(predicates: &Vec<BoundExpr>, stats: &Vec<ColumnRange>) -> (r: ColumnRange)
    requires
        predicates@.len() > 0,
    ensures
        r == conjunction_range(predicates@, stats@, predicates@.len() as int),
{
    let mut acc = predicates[0].eval_stats(stats);
    let mut i: usize = 1;
    while i < predicates.len()
        invariant
            1 <= i <= predicates@.len(),
            acc == conjunction_range(predicates@, stats@, i as int),
        decreases predicates@.len() - i,
    {
        acc = combine(BinaryOp::And, acc, predicates[i].eval_stats(stats));
        i += 1;
    }
    acc
}

impl MicroPartition {
    /// Every table is well formed under the schema of the container, and
    /// the statistics, where there are any, have one range per column; an
    /// unread container has statistics.
    pub open spec fn wf(self) -> bool {
        &&& forall|t: int|
            0 <= t < self.tables().len() ==> (#[trigger] self.tables()[t]).wf()
                && self.tables()[t].width() == self.schema.fields@.len()
                && self.tables()[t].schema@ == self.schema@
        &&& self.statistics matches Some(st) ==> st.columns@.len() == self.schema.fields@.len()
        &&& !self.is_loaded() ==> self.statistics is Some
    }

    /// Whether the statistics prove the conjunction of the predicates false.
    pub open spec fn proved_false(self, predicates: Seq<Expr>) -> bool {
        self.statistics matches Some(st) && truth_of(
            conjunction_range(
                all_resolved(predicates, self.schema.fields@),
                st.columns@,
                predicates.len() as int,
            ),
        ) == TruthValue::False
    }

    /// Whether `out` is the container with the rows on which every
    /// predicate holds: table by table, with the statistics unchanged.
    pub open spec fn filtered(self, predicates: Seq<Expr>, out: MicroPartition) -> bool {
        &&& out.is_loaded()
        &&& out.schema@ == self.schema@
        &&& out.tables().len() == self.tables().len()
        &&& forall|t: int|
            0 <= t < self.tables().len() ==> (#[trigger] out.tables()[t]).cells() == kept(
                self.tables()[t].cells(),
                all_resolved(predicates, self.schema.fields@),
                self.tables()[t].rows@.len() as int,
            ) && out.tables()[t].wf() && out.tables()[t].width() == self.schema.fields@.len()
                && out.tables()[t].schema@ == out.schema@
        &&& out.wf()
        &&& match self.statistics {
            Some(st) => out.statistics matches Some(ost) && ost.columns@ == st.columns@,
            None => out.statistics is None,
        }
    }

    /// Whether `out` is the empty container under the schema of this one.
    pub open spec fn emptied(self, out: MicroPartition) -> bool {
        &&& out.is_empty()
        &&& out.tables().len() == 0
        &&& out.schema@ == self.schema@
        &&& out.statistics is None
    }

    /// Whether `r` is what filtering by the predicates must return.
    pub open spec fn filter_outcome(
        self,
        predicates: Seq<Expr>,
        r: Result<MicroPartition, ContainerError>,
    ) -> bool {
        if predicates.len() == 0 {
            r matches Ok(out) && self.emptied(out)
        } else if !all_resolvable(predicates, self.schema.fields@) {
            r == Err::<MicroPartition, ContainerError>(ContainerError::TypeError)
        } else if self.proved_false(predicates) {
            r matches Ok(out) && self.emptied(out)
        } else if !self.is_loaded() {
            r == Err::<MicroPartition, ContainerError>(ContainerError::NotLoaded)
        } else {
            r matches Ok(out) && self.filtered(predicates, out)
        }
    }

    /// Keeps the rows on which every predicate holds.
    ///
    /// An empty list of predicates gives an empty container. So do
    /// statistics that prove the conjunction of the predicates false, and no
    /// row is looked at then. A predicate that does not resolve is a type
    /// error. An unread container whose rows are needed is reported as such.
    pub fn filter(&self, predicate: &Vec<Expr>) -> (r: Result<MicroPartition, ContainerError>)
        requires
            self.wf(),
        ensures
            self.filter_outcome(predicate@, r),
    {
        if predicate.len() == 0 {
            return Ok(MicroPartition::empty(self.schema.duplicate()));
        }
        let bound = match bind_list(predicate, &self.schema) {
            Some(b) => b,
            None => {
                return Err(ContainerError::TypeError);
            },
        };
        match &self.statistics {
            Some(statistics) => {
                let range = conjunction(&bound, &statistics.columns);
                match to_truth_value(range) {
                    TruthValue::False => {
                        return Ok(MicroPartition::empty(self.schema.duplicate()));
                    },
                    _ => {},
                }
            },
            None => {},
        }
        let tables = match &self.state {
            TableState::Loaded(tables) => tables,
            TableState::Unloaded(_) => {
                return Err(ContainerError::NotLoaded);
            },
        };
        let mut filtered: Vec<Table> = Vec::new();
        let mut t: usize = 0;
        while t < tables.len()
            invariant
                t <= tables@.len(),
                self.wf(),
                tables@ == self.tables(),
                bound@ == all_resolved(predicate@, self.schema.fields@),
                all_fit(bound@, self.schema.fields@.len()),
                filtered@.len() == t,
                forall|q: int|
                    0 <= q < t ==> (#[trigger] filtered@[q]).cells() == kept(
                        tables@[q].cells(),
                        bound@,
                        tables@[q].rows@.len() as int,
                    ) && filtered@[q].wf() && filtered@[q].width() == self.schema.fields@.len()
                        && filtered@[q].schema@ == self.schema@,
            decreases tables@.len() - t,
        {
            assert(self.tables()[t as int].wf());
            filtered.push(filter_table(&tables[t], &bound));
            t += 1;
        }
        let statistics = match &self.statistics {
            Some(st) => Some(st.duplicate()),
            None => None,
        };
        Ok(MicroPartition::new_loaded(self.schema.duplicate(), filtered, statistics))
    }
}

/// Where statistics prove a conjunction of predicates false, some predicate
/// fails on every row that the statistics cover: filtering row by row would
/// keep nothing.
pub proof fn lemma_short_circuit_sound(
    predicates: Seq<BoundExpr>,
    stats: Seq<ColumnRange>,
    row: Seq<Option<i64>>,
    upto: int,
)
    requires
        1 <= upto <= predicates.len(),
        all_fit(predicates, row.len()),
        within(row, stats),
        truth_of(conjunction_range(predicates, stats, upto)) == TruthValue::False,
    ensures
        !all_hold(predicates, row),
    decreases upto,
{
    if upto <= 1 {
        assert(predicates[0].fits(row.len()));
        lemma_false_predicate_selects_nothing(predicates[0], row, stats);
    } else {
        let before = conjunction_range(predicates, stats, upto - 1);
        let last = predicates[upto - 1].range(stats);
        assert(predicates[upto - 1].fits(row.len()));
        if truth_of(before) == TruthValue::False {
            lemma_short_circuit_sound(predicates, stats, row, upto - 1);
        } else {
            assert(truth_of(last) == TruthValue::False);
            lemma_false_predicate_selects_nothing(predicates[upto - 1], row, stats);
        }
    }
}

/// The name of the column that an expression produces.
pub open spec fn output_name(expr: Expr) -> Seq<char>
    decreases expr,
{
    match expr {
        Expr::Column(name) => name@,
        Expr::Literal(_) => "literal"@,
        Expr::Alias(_, name) => name@,
        Expr::Binary(_, l, _) => output_name(*l),
        Expr::ScalarFunction(name, _) => name@,
    }
}

/// The type of the column that an expression produces.
pub open spec fn output_type(expr: Expr, fields: Seq<Field>) -> DataType
    decreases expr,
{
    match expr {
        Expr::Column(name) => fields[position(fields, name@)].dtype,
        Expr::Literal(Some(_)) => DataType::Int64,
        Expr::Literal(None) => DataType::Null,
        Expr::Alias(inner, _) => output_type(*inner, fields),
        Expr::Binary(op, _, _) => match op {
            BinaryOp::Plus => DataType::Int64,
            _ => DataType::Boolean,
        },
        Expr::ScalarFunction(_, _) => DataType::Unknown,
    }
}

/// The schema that a list of expressions produces.
pub open spec fn inferred(exprs: Seq<Expr>, fields: Seq<Field>) -> Seq<(Seq<char>, DataType)> {
    Seq::new(exprs.len(), |i: int| (output_name(exprs[i]), output_type(exprs[i], fields)))
}

/// Whether no two expressions of the list produce a column of the same
/// name.
pub open spec fn distinct_names(exprs: Seq<Expr>) -> bool {
    forall|i: int, j: int|
        0 <= i < j < exprs.len() ==> output_name(#[trigger] exprs[i]) != output_name(
            #[trigger] exprs[j],
        )
}

/// The name of the column that an expression produces.
pub fn name_of(expr: &Expr) -> (name: String)
    ensures
        name@ == output_name(*expr),
    decreases expr,
{
    match expr {
        Expr::Column(name) => name.clone(),
        Expr::Literal(_) => "literal".to_string(),
        Expr::Alias(_, name) => name.clone(),
        Expr::Binary(_, l, _) => name_of(l),
        Expr::ScalarFunction(name, _) => name.clone(),
    }
}

/// The type of the column that an expression produces, where the
/// expression resolves against the schema.
pub fn type_of(expr: &Expr, schema: &Schema) -> (r: Option<DataType>)
    ensures
        r is Some <==> resolvable(*expr, schema.fields@),
        r matches Some(t) ==> t == output_type(*expr, schema.fields@),
    decreases expr,
{
    match expr {
        Expr::Column(name) => match schema.index_of(name) {
            Some(i) => {
                proof {
                    lemma_position(schema.fields@, name@, i as int);
                }
                Some(schema.fields[i].dtype)
            },
            None => None,
        },
        Expr::Literal(Some(_)) => Some(DataType::Int64),
        Expr::Literal(None) => Some(DataType::Null),
        Expr::Alias(inner, _) => type_of(inner, schema),
        Expr::Binary(op, l, r) => {
            if type_of(l, schema).is_none() || type_of(r, schema).is_none() {
                None
            } else {
                match op {
                    BinaryOp::Plus => Some(DataType::Int64),
                    _ => Some(DataType::Boolean),
                }
            }
        },
        Expr::ScalarFunction(_, _) => None,
    }
}

/// Whether `r` is what inferring the schema of the expressions must
/// return: a type error where an expression does not resolve, else a value
/// error where two expressions produce the same name, else the schema.
pub open spec fn infer_outcome(
    exprs: Seq<Expr>,
    fields: Seq<Field>,
    r: Result<Schema, ContainerError>,
) -> bool {
    if !all_resolvable(exprs, fields) {
        r == Err::<Schema, ContainerError>(ContainerError::TypeError)
    } else if !distinct_names(exprs) {
        r == Err::<Schema, ContainerError>(ContainerError::ValueError)
    } else {
        r matches Ok(s) && s@ == inferred(exprs, fields)
    }
}

/// The schema that a list of expressions produces over a schema.
pub fn infer_schema(exprs: &Vec<Expr>, schema: &Schema) -> (r: Result<Schema, ContainerError>)
    ensures
        infer_outcome(exprs@, schema.fields@, r),
{
    let mut fields: Vec<Field> = Vec::new();
    let mut i: usize = 0;
    while i < exprs.len()
        invariant
            i <= exprs@.len(),
            fields@.len() == i,
            forall|j: int| 0 <= j < i ==> resolvable(#[trigger] exprs@[j], schema.fields@),
            forall|j: int|
                0 <= j < i ==> (#[trigger] fields@[j]).pair() == (
                    output_name(exprs@[j]),
                    output_type(exprs@[j], schema.fields@),
                ),
        decreases exprs@.len() - i,
    {
        match type_of(&exprs[i], schema) {
            Some(dtype) => fields.push(Field::new(name_of(&exprs[i]), dtype)),
            None => {
                assert(!resolvable(exprs@[i as int], schema.fields@));
                return Err(ContainerError::TypeError);
            },
        }
        i += 1;
    }
    let mut b: usize = 0;
    while b < fields.len()
        invariant
            b <= fields@.len(),
            fields@.len() == exprs@.len(),
            all_resolvable(exprs@, schema.fields@),
            forall|j: int|
                0 <= j < fields@.len() ==> (#[trigger] fields@[j]).pair() == (
                    output_name(exprs@[j]),
                    output_type(exprs@[j], schema.fields@),
                ),
            forall|x: int, y: int|
                0 <= x < y < b ==> output_name(#[trigger] exprs@[x]) != output_name(
                    #[trigger] exprs@[y],
                ),
        decreases fields@.len() - b,
    {
        let mut a: usize = 0;
        while a < b
            invariant
                a <= b < fields@.len(),
                fields@.len() == exprs@.len(),
                all_resolvable(exprs@, schema.fields@),
                forall|j: int|
                    0 <= j < fields@.len() ==> (#[trigger] fields@[j]).pair() == (
                        output_name(exprs@[j]),
                        output_type(exprs@[j], schema.fields@),
                    ),
                forall|x: int|
                    0 <= x < a ==> output_name(#[trigger] exprs@[x]) != output_name(exprs@[b as int]),
            decreases b - a,
        {
            if fields[a].name == fields[b].name {
                assert(fields@[a as int].pair().0 == output_name(exprs@[a as int]));
                assert(fields@[b as int].pair().0 == output_name(exprs@[b as int]));
                assert(!distinct_names(exprs@));
                return Err(ContainerError::ValueError);
            }
            assert(fields@[a as int].pair().0 == output_name(exprs@[a as int]));
            assert(fields@[b as int].pair().0 == output_name(exprs@[b as int]));
            a += 1;
        }
        b += 1;
    }
    let out = Schema::new(fields);
    assert(out@ =~= inferred(exprs@, schema.fields@));
    Ok(out)
}

/// The value of every expression on every row.
pub open spec fn evaluated(cells: Seq<Seq<Option<i64>>>, bound: Seq<BoundExpr>) -> Seq<
    Seq<Option<i64>>,
> {
    Seq::new(cells.len(), |r: int| Seq::new(bound.len(), |j: int| bound[j].value(cells[r])))
}

/// The range of every expression over the statistics.
pub open spec fn evaluated_ranges(stats: Seq<ColumnRange>, bound: Seq<BoundExpr>) -> Seq<
    ColumnRange,
> {
    Seq::new(bound.len(), |j: int| bound[j].range(stats))
}

/// The table of the values of the expressions on every row of a table.
pub fn eval_table(table: &Table, bound: &Vec<BoundExpr>, schema: &Schema) -> (out: Table)
    requires
        table.wf(),
        all_fit(bound@, table.width()),
        schema.fields@.len() == bound@.len(),
    ensures
        out.wf(),
        out.schema@ == schema@,
        out.width() == bound@.len(),
        out.cells() == evaluated(table.cells(), bound@),
{
    let mut rows: Vec<Row> = Vec::new();
    let mut r: usize = 0;
    while r < table.rows.len()
        invariant
            r <= table.rows@.len(),
            table.wf(),
            all_fit(bound@, table.width()),
            rows@.len() == r,
            forall|q: int|
                0 <= q < r ==> (#[trigger] rows@[q])@ == Seq::new(
                    bound@.len(),
                    |j: int| bound@[j].value(table.cells()[q]),
                ),
        decreases table.rows@.len() - r,
    {
        assert(table.rows@[r as int]@.len() == table.width());
        let source = &table.rows[r];
        let mut row: Row = Vec::new();
        let mut j: usize = 0;
        while j < bound.len()
            invariant
                j <= bound@.len(),
                all_fit(bound@, source@.len()),
                row@ == Seq::new(j as nat, |k: int| bound@[k].value(source@)),
            decreases bound@.len() - j,
        {
            assert(bound@[j as int].fits(source@.len()));
            row.push(bound[j].eval(source));
            j += 1;
            assert(row@ =~= Seq::new(j as nat, |k: int| bound@[k].value(source@)));
        }
        rows.push(row);
        r += 1;
    }
    let out = Table { schema: schema.duplicate(), rows };
    assert(out.cells() =~= evaluated(table.cells(), bound@));
    out
}

impl MicroPartition {
    /// Whether `out` holds, table by table, the values of the expressions
    /// on the rows of this container, with the statistics evaluated through
    /// the same expressions.
    pub open spec fn projected_to(self, exprs: Seq<Expr>, out: MicroPartition) -> bool {
        let bound = all_resolved(exprs, self.schema.fields@);
        &&& out.is_loaded()
        &&& out.schema@ == inferred(exprs, self.schema.fields@)
        &&& out.tables().len() == self.tables().len()
        &&& forall|t: int|
            0 <= t < self.tables().len() ==> (#[trigger] out.tables()[t]).cells() == evaluated(
                self.tables()[t].cells(),
                bound,
            ) && out.tables()[t].wf() && out.tables()[t].width() == exprs.len()
                && out.tables()[t].schema@ == out.schema@
        &&& out.wf()
        &&& match self.statistics {
            Some(st) => out.statistics matches Some(ost) && ost.columns@ == evaluated_ranges(
                st.columns@,
                bound,
            ),
            None => out.statistics is None,
        }
    }

    /// Whether `r` is what evaluating the expressions must return.
    pub open spec fn eval_outcome(
        self,
        exprs: Seq<Expr>,
        r: Result<MicroPartition, ContainerError>,
    ) -> bool {
        if !all_resolvable(exprs, self.schema.fields@) {
            r == Err::<MicroPartition, ContainerError>(ContainerError::TypeError)
        } else if !distinct_names(exprs) {
            r == Err::<MicroPartition, ContainerError>(ContainerError::ValueError)
        } else if !self.is_loaded() {
            r == Err::<MicroPartition, ContainerError>(ContainerError::NotLoaded)
        } else {
            r matches Ok(out) && self.projected_to(exprs, out)
        }
    }

    /// Evaluates a list of expressions on every row.
    ///
    /// The output schema is inferred first: an expression that does not
    /// resolve is a type error, and two expressions with the same output
    /// name are a value error, before any row is looked at.
    pub fn eval_expression_list(&self, exprs: &Vec<Expr>) -> (r: Result<
        MicroPartition,
        ContainerError,
    >)
        requires
            self.wf(),
        ensures
            self.eval_outcome(exprs@, r),
    {
        let expected = match infer_schema(exprs, &self.schema) {
            Ok(s) => s,
            Err(e) => {
                return Err(e);
            },
        };
        let tables = match &self.state {
            TableState::Loaded(tables) => tables,
            TableState::Unloaded(_) => {
                return Err(ContainerError::NotLoaded);
            },
        };
        let bound = match bind_list(exprs, &self.schema) {
            Some(b) => b,
            None => {
                return Err(ContainerError::TypeError);
            },
        };
        assert(expected.fields@.len() == bound@.len()) by {
            assert(expected@.len() == inferred(exprs@, self.schema.fields@).len());
        }
        let mut out_tables: Vec<Table> = Vec::new();
        let mut t: usize = 0;
        while t < tables.len()
            invariant
                t <= tables@.len(),
                self.wf(),
                tables@ == self.tables(),
                bound@ == all_resolved(exprs@, self.schema.fields@),
                all_fit(bound@, self.schema.fields@.len()),
                expected.fields@.len() == bound@.len(),
                out_tables@.len() == t,
                forall|q: int|
                    0 <= q < t ==> (#[trigger] out_tables@[q]).cells() == evaluated(
                        tables@[q].cells(),
                        bound@,
                    ) && out_tables@[q].wf() && out_tables@[q].width() == exprs@.len()
                        && out_tables@[q].schema@ == expected@,
            decreases tables@.len() - t,
        {
            assert(self.tables()[t as int].wf());
            out_tables.push(eval_table(&tables[t], &bound, &expected));
            t += 1;
        }
        let statistics = match &self.statistics {
            Some(st) => {
                let mut columns: Vec<ColumnRange> = Vec::new();
                let mut j: usize = 0;
                while j < bound.len()
                    invariant
                        j <= bound@.len(),
                        columns@ == evaluated_ranges(st.columns@, bound@).take(j as int),
                    decreases bound@.len() - j,
                {
                    columns.push(bound[j].eval_stats(&st.columns));
                    j += 1;
                    assert(columns@ =~= evaluated_ranges(st.columns@, bound@).take(j as int));
                }
                assert(columns@ =~= evaluated_ranges(st.columns@, bound@));
                Some(TableStatistics { columns })
            },
            None => None,
        };
        Ok(MicroPartition::new_loaded(expected, out_tables, statistics))
    }
}

/// For every field of `target`, the position of the first field of `source`
/// with its name, if there is one.
pub open spec fn name_map(source: Seq<Field>, target: Seq<Field>) -> Seq<Option<usize>> {
    Seq::new(
        target.len(),
        |j: int|
            if named(source, target[j].name@) {
                Some(position(source, target[j].name@) as usize)
            } else {
                None
            },
    )
}

/// A row brought under another schema: each cell is taken from the column
/// of the same name, and is null where there is none.
pub open spec fn recast_row(row: Seq<Option<i64>>, map: Seq<Option<usize>>) -> Seq<Option<i64>> {
    Seq::new(
        map.len(),
        |j: int|
            match map[j] {
                Some(c) => row[c as int],
                None => None,
            },
    )
}

/// Column ranges brought under another schema: each range is taken from the
/// column of the same name, and is missing where there is none.
pub open spec fn recast_ranges(ranges: Seq<ColumnRange>, map: Seq<Option<usize>>) -> Seq<
    ColumnRange,
> {
    Seq::new(
        map.len(),
        |j: int|
            match map[j] {
                Some(c) => ranges[c as int],
                None => ColumnRange::Missing,
            },
    )
}

/// The rows of a table, each brought under another schema.
pub open spec fn recast_cells(cells: Seq<Seq<Option<i64>>>, map: Seq<Option<usize>>) -> Seq<
    Seq<Option<i64>>,
> {
    Seq::new(cells.len(), |r: int| recast_row(cells[r], map))
}

/// Where each column of `target` is found in `source`, by name.
pub fn map_names(source: &Schema, target: &Schema) -> (map: Vec<Option<usize>>)
    ensures
        map@ == name_map(source.fields@, target.fields@),
        forall|j: int|
            0 <= j < map@.len() ==> ((#[trigger] map@[j]) matches Some(c) ==> c
                < source.fields@.len()),
{
    let mut map: Vec<Option<usize>> = Vec::new();
    let mut j: usize = 0;
    while j < target.fields.len()
        invariant
            j <= target.fields@.len(),
            map@ == name_map(source.fields@, target.fields@).take(j as int),
            forall|k: int|
                0 <= k < map@.len() ==> ((#[trigger] map@[k]) matches Some(c) ==> c
                    < source.fields@.len()),
        decreases target.fields@.len() - j,
    {
        let found = source.index_of(&target.fields[j].name);
        proof {
            if let Some(i) = found {
                lemma_position(source.fields@, target.fields@[j as int].name@, i as int);
            }
        }
        let ghost before = map@;
        map.push(found);
        j += 1;
        assert(map@ =~= name_map(source.fields@, target.fields@).take(j as int));
        assert forall|k: int| 0 <= k < map@.len() implies ((#[trigger] map@[k]) matches Some(c)
            ==> c < source.fields@.len()) by {
            if k < before.len() {
                assert(map@[k] == before[k]);
            }
        }
    }
    assert(map@ =~= name_map(source.fields@, target.fields@));
    map
}

/// A table brought under another schema, column by name.
pub fn recast_table(table: &Table, map: &Vec<Option<usize>>, target: &Schema) -> (out: Table)
    requires
        table.wf(),
        map@.len() == target.fields@.len(),
        forall|j: int| 0 <= j < map@.len() ==> ((#[trigger] map@[j]) matches Some(c) ==> c < table.width()),
    ensures
        out.wf(),
        out.schema@ == target@,
        out.width() == target.fields@.len(),
        out.cells() == recast_cells(table.cells(), map@),
{
    let mut rows: Vec<Row> = Vec::new();
    let mut r: usize = 0;
    while r < table.rows.len()
        invariant
            r <= table.rows@.len(),
            table.wf(),
            forall|j: int|
                0 <= j < map@.len() ==> ((#[trigger] map@[j]) matches Some(c) ==> c < table.width()),
            rows@.len() == r,
            forall|q: int| 0 <= q < r ==> (#[trigger] rows@[q])@ == recast_row(table.cells()[q], map@),
        decreases table.rows@.len() - r,
    {
        assert(table.rows@[r as int]@.len() == table.width());
        let source = &table.rows[r];
        let mut row: Row = Vec::new();
        let mut j: usize = 0;
        while j < map.len()
            invariant
                j <= map@.len(),
                forall|k: int|
                    0 <= k < map@.len() ==> ((#[trigger] map@[k]) matches Some(c) ==> c
                        < source@.len()),
                row@ == recast_row(source@, map@).take(j as int),
            decreases map@.len() - j,
        {
            let cell: Option<i64> = match map[j] {
                Some(c) => source[c],
                None => None,
            };
            row.push(cell);
            j += 1;
            assert(row@ =~= recast_row(source@, map@).take(j as int));
        }
        assert(row@ =~= recast_row(source@, map@));
        rows.push(row);
        r += 1;
    }
    let out = Table { schema: target.duplicate(), rows };
    assert(out.cells() =~= recast_cells(table.cells(), map@));
    out
}

/// Column statistics brought under another schema, column by name.
pub fn recast_statistics(statistics: &TableStatistics, map: &Vec<Option<usize>>) -> (out:
    TableStatistics)
    requires
        forall|j: int|
            0 <= j < map@.len() ==> ((#[trigger] map@[j]) matches Some(c) ==> c
                < statistics.columns@.len()),
    ensures
        out.columns@ == recast_ranges(statistics.columns@, map@),
{
    let mut columns: Vec<ColumnRange> = Vec::new();
    let mut j: usize = 0;
    while j < map.len()
        invariant
            j <= map@.len(),
            forall|k: int|
                0 <= k < map@.len() ==> ((#[trigger] map@[k]) matches Some(c) ==> c
                    < statistics.columns@.len()),
            columns@ == recast_ranges(statistics.columns@, map@).take(j as int),
        decreases map@.len() - j,
    {
        let range = match map[j] {
            Some(c) => statistics.columns[c],
            None => ColumnRange::Missing,
        };
        columns.push(range);
        j += 1;
        assert(columns@ =~= recast_ranges(statistics.columns@, map@).take(j as int));
    }
    assert(columns@ =~= recast_ranges(statistics.columns@, map@));
    TableStatistics { columns }
}

impl MicroPartition {
    /// Whether `out` is this container under the schema `target`, with
    /// columns matched by name. The statistics are recast in either state.
    /// An unread container stays unread: its source is kept, to be read
    /// under the new schema. In a read container every table is recast.
    pub open spec fn recast_to(self, target: Schema, out: MicroPartition) -> bool {
        let map = name_map(self.schema.fields@, target.fields@);
        &&& out.schema@ == target@
        &&& match self.statistics {
            Some(st) => out.statistics matches Some(ost) && ost.columns@ == recast_ranges(
                st.columns@,
                map,
            ),
            None => out.statistics is None,
        }
        &&& match self.state {
            TableState::Unloaded(task) => out.state matches TableState::Unloaded(new_task)
                && new_task.path == task.path && new_task.num_rows == task.num_rows
                && new_task.schema@ == target@,
            TableState::Loaded(tables) => out.is_loaded() && out.tables().len() == tables@.len()
                && forall|t: int|
                0 <= t < tables@.len() ==> (#[trigger] out.tables()[t]).cells() == recast_cells(
                    tables@[t].cells(),
                    map,
                ) && out.tables()[t].wf() && out.tables()[t].width() == target.fields@.len()
                    && out.tables()[t].schema@ == out.schema@,
        }
    }

    /// Brings the container under another schema, matching columns by name.
    /// No row of an unread container is read.
    pub fn cast_to_schema(&self, schema: Schema) -> (r: Result<MicroPartition, ContainerError>)
        requires
            self.wf(),
        ensures
            r matches Ok(out) && self.recast_to(schema, out) && out.wf(),
    {
        let map = map_names(&self.schema, &schema);
        let pruned = match &self.statistics {
            Some(st) => Some(recast_statistics(st, &map)),
            None => None,
        };
        match &self.state {
            TableState::Unloaded(task) => {
                let new_task = ScanTask {
                    path: task.path.clone(),
                    schema: schema.duplicate(),
                    num_rows: task.num_rows,
                };
                let out = MicroPartition {
                    schema,
                    state: TableState::Unloaded(new_task),
                    statistics: pruned,
                };
                assert(out.tables().len() == 0);
                Ok(out)
            },
            TableState::Loaded(tables) => {
                let mut recast: Vec<Table> = Vec::new();
                let mut t: usize = 0;
                while t < tables.len()
                    invariant
                        t <= tables@.len(),
                        self.wf(),
                        tables@ == self.tables(),
                        map@ == name_map(self.schema.fields@, schema.fields@),
                        forall|j: int|
                            0 <= j < map@.len() ==> ((#[trigger] map@[j]) matches Some(c) ==> c
                                < self.schema.fields@.len()),
                        recast@.len() == t,
                        forall|q: int|
                            0 <= q < t ==> (#[trigger] recast@[q]).cells() == recast_cells(
                                tables@[q].cells(),
                                map@,
                            ) && recast@[q].wf() && recast@[q].width() == schema.fields@.len()
                                && recast@[q].schema@ == schema@,
                    decreases tables@.len() - t,
                {
                    assert(self.tables()[t as int].wf());
                    recast.push(recast_table(&tables[t], &map, &schema));
                    t += 1;
                }
                Ok(MicroPartition::new_loaded(schema, recast, pruned))
            },
        }
    }
}

/// The fields among the first `upto` of `added` whose names no field of
/// `source` has.
pub open spec fn fresh(added: Seq<Field>, source: Seq<Field>, upto: int) -> Seq<
    (Seq<char>, DataType),
>
    decreases upto,
{
    if upto <= 0 {
        Seq::empty()
    } else if named(source, added[upto - 1].name@) {
        fresh(added, source, upto - 1)
    } else {
        fresh(added, source, upto - 1).push(added[upto - 1].pair())
    }
}

/// The fields of `source`, each replaced by the first field of `added`
/// with its name where there is one.
pub open spec fn replaced(source: Seq<Field>, added: Seq<Field>) -> Seq<(Seq<char>, DataType)> {
    Seq::new(
        source.len(),
        |i: int|
            if named(added, source[i].name@) {
                added[position(added, source[i].name@)].pair()
            } else {
                source[i].pair()
            },
    )
}

/// The union of two schemas in which a name of both takes the field of
/// `added`: the fields of `source` in their places, then the fields that
/// only `added` has.
pub open spec fn united(source: Seq<Field>, added: Seq<Field>) -> Seq<(Seq<char>, DataType)> {
    replaced(source, added) + fresh(added, source, added.len() as int)
}

/// Whether exactly one field has the given name.
pub open spec fn occurs_once(fields: Seq<Field>, name: Seq<char>) -> bool {
    named(fields, name) && forall|j: int|
        position(fields, name) < j < fields.len() ==> (#[trigger] fields[j]).name@ != name
}

/// The ranges of the columns of a union of schemas: the range of the
/// column of `source` where its name occurs once there and `added` does
/// not have it, and missing for every other column.
pub open spec fn united_ranges(
    source: Seq<Field>,
    added: Seq<Field>,
    ranges: Seq<ColumnRange>,
) -> Seq<ColumnRange> {
    Seq::new(
        united(source, added).len(),
        |i: int|
            if i < source.len() && !named(added, source[i].name@) && occurs_once(
                source,
                source[i].name@,
            ) {
                ranges[i]
            } else {
                ColumnRange::Missing
            },
    )
}

/// The union of two schemas in which a name of both takes the field of
/// `added`.
pub fn non_distinct_union(source: &Schema, added: &Schema) -> (r: Schema)
    ensures
        r@ == united(source.fields@, added.fields@),
{
    let mut fields: Vec<Field> = Vec::new();
    let mut i: usize = 0;
    while i < source.fields.len()
        invariant
            i <= source.fields@.len(),
            fields@.len() == i,
            forall|k: int|
                0 <= k < i ==> (#[trigger] fields@[k]).pair() == replaced(
                    source.fields@,
                    added.fields@,
                )[k],
        decreases source.fields@.len() - i,
    {
        let field = match added.index_of(&source.fields[i].name) {
            Some(j) => {
                proof {
                    lemma_position(added.fields@, source.fields@[i as int].name@, j as int);
                }
                added.fields[j].duplicate()
            },
            None => source.fields[i].duplicate(),
        };
        fields.push(field);
        i += 1;
    }
    let n: usize = source.fields.len();
    let mut j: usize = 0;
    while j < added.fields.len()
        invariant
            j <= added.fields@.len(),
            n == source.fields@.len(),
            fields@.len() == n + fresh(added.fields@, source.fields@, j as int).len(),
            forall|k: int|
                0 <= k < n ==> (#[trigger] fields@[k]).pair() == replaced(
                    source.fields@,
                    added.fields@,
                )[k],
            forall|k: int|
                n <= k < fields@.len() ==> (#[trigger] fields@[k]).pair() == fresh(
                    added.fields@,
                    source.fields@,
                    j as int,
                )[k - n],
        decreases added.fields@.len() - j,
    {
        let ghost before = fields@;
        if !source.has_field(&added.fields[j].name) {
            fields.push(added.fields[j].duplicate());
        }
        j += 1;
        assert forall|k: int| 0 <= k < n implies (#[trigger] fields@[k]).pair() == replaced(
            source.fields@,
            added.fields@,
        )[k] by {
            assert(fields@[k] == before[k]);
        }
        assert forall|k: int| n <= k < fields@.len() implies (#[trigger] fields@[k]).pair()
            == fresh(added.fields@, source.fields@, j as int)[k - n] by {
            if k < before.len() {
                assert(fields@[k] == before[k]);
            }
        }
    }
    let r = Schema::new(fields);
    assert(r@ =~= united(source.fields@, added.fields@));
    r
}

/// Whether exactly one field of the schema has the name of field `i`.
fn is_only(schema: &Schema, i: usize) -> (r: bool)
    requires
        i < schema.fields@.len(),
    ensures
        r == (occurs_once(schema.fields@, schema.fields@[i as int].name@) && position(
            schema.fields@,
            schema.fields@[i as int].name@,
        ) == i),
        occurs_once(schema.fields@, schema.fields@[i as int].name@) ==> r,
{
    let ghost name = schema.fields@[i as int].name@;
    let first = schema.index_of(&schema.fields[i].name);
    let at: usize = match first {
        Some(f) => f,
        None => {
            return false;
        },
    };
    proof {
        lemma_position(schema.fields@, name, at as int);
    }
    if at != i {
        assert(schema.fields@[i as int].name@ == name);
        return false;
    }
    let n: usize = schema.fields.len();
    let mut j: usize = i + 1;
    while j < n
        invariant
            i < j <= n,
            n == schema.fields@.len(),
            name == schema.fields@[i as int].name@,
            position(schema.fields@, name) == i,
            forall|k: int| i < k < j ==> (#[trigger] schema.fields@[k]).name@ != name,
        decreases n - j,
    {
        if schema.fields[j].name == schema.fields[i].name {
            return false;
        }
        j += 1;
    }
    true
}

impl MicroPartition {
    /// Whether `r` is what exploding by the expressions must return, given
    /// the tables that the list kernel made of the tables of this container.
    pub open spec fn explode_outcome(
        self,
        exprs: Seq<Expr>,
        exploded: Vec<Table>,
        r: Result<MicroPartition, ContainerError>,
    ) -> bool {
        if !all_resolvable(exprs, self.schema.fields@) {
            r == Err::<MicroPartition, ContainerError>(ContainerError::TypeError)
        } else if !self.is_loaded() {
            r == Err::<MicroPartition, ContainerError>(ContainerError::NotLoaded)
        } else if !distinct_names(exprs) {
            r == Err::<MicroPartition, ContainerError>(ContainerError::ValueError)
        } else {
            r matches Ok(out) && out.state == TableState::Loaded(exploded) && (exists|added: Schema|
                #![trigger united(self.schema.fields@, added.fields@)]
                added@ == inferred(exprs, self.schema.fields@) && out.schema@ == united(
                    self.schema.fields@,
                    added.fields@,
                ) && match self.statistics {
                    Some(st) => out.statistics matches Some(ost) && ost.columns@ == united_ranges(
                        self.schema.fields@,
                        added.fields@,
                        st.columns@,
                    ),
                    None => out.statistics is None,
                })
        }
    }

    /// The container of the exploded tables. Its schema is the schema of
    /// this container united with the columns that the expressions produce.
    /// Statistics are kept for the columns that are not exploded and whose
    /// name is unambiguous, and are missing for the others.
    ///
    /// `exploded` holds what the list kernel made of the tables of this
    /// container.
    pub fn explode(&self, exprs: &Vec<Expr>, exploded: Vec<Table>) -> (r: Result<
        MicroPartition,
        ContainerError,
    >)
        requires
            self.wf(),
        ensures
            self.explode_outcome(exprs@, exploded, r),
    {
        if bind_list(exprs, &self.schema).is_none() {
            return Err(ContainerError::TypeError);
        }
        match &self.state {
            TableState::Loaded(_) => {},
            TableState::Unloaded(_) => {
                return Err(ContainerError::NotLoaded);
            },
        }
        let added = match infer_schema(exprs, &self.schema) {
            Ok(s) => s,
            Err(e) => {
                return Err(e);
            },
        };
        let schema = non_distinct_union(&self.schema, &added);
        let statistics = match &self.statistics {
            Some(st) => {
                let total: usize = schema.len();
                let ghost expected = united_ranges(
                    self.schema.fields@,
                    added.fields@,
                    st.columns@,
                );
                let mut columns: Vec<ColumnRange> = Vec::new();
                let mut i: usize = 0;
                while i < total
                    invariant
                        i <= total,
                        total == united(self.schema.fields@, added.fields@).len(),
                        self.wf(),
                        self.statistics == Some(*st),
                        expected == united_ranges(
                            self.schema.fields@,
                            added.fields@,
                            st.columns@,
                        ),
                        columns@ == expected.take(i as int),
                    decreases total - i,
                {
                    let range = if i < self.schema.fields.len() && !added.has_field(
                        &self.schema.fields[i].name,
                    ) && is_only(&self.schema, i) {
                        st.columns[i]
                    } else {
                        ColumnRange::Missing
                    };
                    columns.push(range);
                    i += 1;
                    assert(columns@ =~= expected.take(i as int));
                }
                assert(columns@ =~= expected);
                Some(TableStatistics { columns })
            },
            None => None,
        };
        let out = MicroPartition::new_loaded(schema, exploded, statistics);
        assert(united(self.schema.fields@, added.fields@) == out.schema@);
        Ok(out)
    }
}

} // verus!
