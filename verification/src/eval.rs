//! Expressions resolved against a schema: their value on a row and their
//! range over column statistics.

use vstd::prelude::*;
use crate::container::ColumnRange;
use crate::expr::{BinaryOp, Expr};
use crate::schema::{Field, Schema, named};
use crate::table::Row;
use crate::window::keys_view;

verus! {

/// An expression whose columns are resolved to positions.
#[derive(Debug)]
pub enum BoundExpr {
    Column(usize),
    Literal(Option<i64>),
    Binary(BinaryOp, Box<BoundExpr>, Box<BoundExpr>),
}

/// What statistics say of a predicate.
#[derive(Clone, Copy, Debug, PartialEq, Eq, Structural)]
pub enum TruthValue {
    False,
    Maybe,
    True,
}

/// A truth value as a number.
pub open spec fn flag(b: bool) -> i64 {
    if b {
        1
    } else {
        0
    }
}

/// The value of a binary operator; null where an operand is null.
pub open spec fn applied(op: BinaryOp, a: Option<i64>, b: Option<i64>) -> Option<i64> {
    match (a, b) {
        (Some(x), Some(y)) => Some(
            match op {
                BinaryOp::And => flag(x != 0 && y != 0),
                BinaryOp::Eq => flag(x == y),
                BinaryOp::Lt => flag(x < y),
                BinaryOp::Gt => flag(x > y),
                BinaryOp::Plus => x.wrapping_add(y),
            },
        ),
        _ => None,
    }
}

/// The range of a binary operator over operands within the given ranges.
pub open spec fn combined(op: BinaryOp, a: ColumnRange, b: ColumnRange) -> ColumnRange {
    match (a, b) {
        (
            ColumnRange::Loaded { lower: la, upper: ua },
            ColumnRange::Loaded { lower: lb, upper: ub },
        ) => match op {
            BinaryOp::And => if (la == 0 && ua == 0) || (lb == 0 && ub == 0) {
                ColumnRange::Loaded { lower: 0, upper: 0 }
            } else if (la > 0 || ua < 0) && (lb > 0 || ub < 0) {
                ColumnRange::Loaded { lower: 1, upper: 1 }
            } else {
                ColumnRange::Loaded { lower: 0, upper: 1 }
            },
            BinaryOp::Eq => if ua < lb || ub < la {
                ColumnRange::Loaded { lower: 0, upper: 0 }
            } else if la == ua && lb == ub && la == lb {
                ColumnRange::Loaded { lower: 1, upper: 1 }
            } else {
                ColumnRange::Loaded { lower: 0, upper: 1 }
            },
            BinaryOp::Lt => if ua < lb {
                ColumnRange::Loaded { lower: 1, upper: 1 }
            } else if la >= ub {
                ColumnRange::Loaded { lower: 0, upper: 0 }
            } else {
                ColumnRange::Loaded { lower: 0, upper: 1 }
            },
            BinaryOp::Gt => if la > ub {
                ColumnRange::Loaded { lower: 1, upper: 1 }
            } else if ua <= lb {
                ColumnRange::Loaded { lower: 0, upper: 0 }
            } else {
                ColumnRange::Loaded { lower: 0, upper: 1 }
            },
            BinaryOp::Plus => ColumnRange::Missing,
        },
        _ => match op {
            BinaryOp::Plus => ColumnRange::Missing,
            BinaryOp::And => if a == (ColumnRange::Loaded { lower: 0, upper: 0 }) || b == (
            ColumnRange::Loaded { lower: 0, upper: 0 }) {
                ColumnRange::Loaded { lower: 0, upper: 0 }
            } else {
                ColumnRange::Loaded { lower: 0, upper: 1 }
            },
            _ => ColumnRange::Loaded { lower: 0, upper: 1 },
        },
    }
}

/// What a range says of a predicate: false where every value is zero, true
/// where none is.
pub open spec fn truth_of(range: ColumnRange) -> TruthValue {
    match range {
        ColumnRange::Missing => TruthValue::Maybe,
        ColumnRange::Loaded { lower, upper } => if lower == 0 && upper == 0 {
            TruthValue::False
        } else if lower > 0 || upper < 0 {
            TruthValue::True
        } else {
            TruthValue::Maybe
        },
    }
}

/// Whether every non-null cell of the row lies within the range of its
/// column.
pub open spec fn within(row: Seq<Option<i64>>, stats: Seq<ColumnRange>) -> bool {
    forall|i: int|
        0 <= i < row.len() && i < stats.len() ==> match (#[trigger] row[i], stats[i]) {
            (Some(v), ColumnRange::Loaded { lower, upper }) => lower <= v <= upper,
            _ => true,
        }
}

impl BoundExpr {
    /// Every column of the expression exists in a row of that width.
    pub open spec fn fits(self, width: nat) -> bool
        decreases self,
    {
        match self {
            BoundExpr::Column(i) => i < width,
            BoundExpr::Literal(_) => true,
            BoundExpr::Binary(_, l, r) => l.fits(width) && r.fits(width),
        }
    }

    /// The value of the expression on a row.
    pub open spec fn value(self, row: Seq<Option<i64>>) -> Option<i64>
        decreases self,
    {
        match self {
            BoundExpr::Column(i) => row[i as int],
            BoundExpr::Literal(v) => v,
            BoundExpr::Binary(op, l, r) => applied(op, l.value(row), r.value(row)),
        }
    }

    /// The range that statistics give the values of the expression.
    pub open spec fn range(self, stats: Seq<ColumnRange>) -> ColumnRange
        decreases self,
    {
        match self {
            BoundExpr::Column(i) => if i < stats.len() {
                stats[i as int]
            } else {
                ColumnRange::Missing
            },
            BoundExpr::Literal(Some(v)) => ColumnRange::Loaded { lower: v, upper: v },
            BoundExpr::Literal(None) => ColumnRange::Missing,
            BoundExpr::Binary(op, l, r) => combined(op, l.range(stats), r.range(stats)),
        }
    }

    /// Whether the expression, as a predicate, holds on the row.
    pub open spec fn holds(self, row: Seq<Option<i64>>) -> bool {
        self.value(row) matches Some(v) && v != 0
    }

    /// Evaluates the expression on a row.
    pub fn eval(&self, row: &Row) -> (r: Option<i64>)
        requires
            self.fits(row@.len()),
        ensures
            r == self.value(row@),
        decreases self,
    {
        match self {
            BoundExpr::Column(i) => row[*i],
            BoundExpr::Literal(v) => *v,
            BoundExpr::Binary(op, l, r) => {
                let a = l.eval(row);
                let b = r.eval(row);
                match (a, b) {
                    (Some(x), Some(y)) => Some(
                        match op {
                            BinaryOp::And => if x != 0 && y != 0 {
                                1
                            } else {
                                0
                            },
                            BinaryOp::Eq => if x == y {
                                1
                            } else {
                                0
                            },
                            BinaryOp::Lt => if x < y {
                                1
                            } else {
                                0
                            },
                            BinaryOp::Gt => if x > y {
                                1
                            } else {
                                0
                            },
                            BinaryOp::Plus => x.wrapping_add(y),
                        },
                    ),
                    _ => None,
                }
            },
        }
    }

    /// Evaluates the expression over column statistics.
    pub fn eval_stats(&self, stats: &Vec<ColumnRange>) -> (r: ColumnRange)
        ensures
            r == self.range(stats@),
        decreases self,
    {
        match self {
            BoundExpr::Column(i) => if *i < stats.len() {
                stats[*i]
            } else {
                ColumnRange::Missing
            },
            BoundExpr::Literal(Some(v)) => ColumnRange::Loaded { lower: *v, upper: *v },
            BoundExpr::Literal(None) => ColumnRange::Missing,
            BoundExpr::Binary(op, l, r) => combine(*op, l.eval_stats(stats), r.eval_stats(stats)),
        }
    }
}

fn is_zero(r: ColumnRange) -> (z: bool)
    ensures
        z == (r == (ColumnRange::Loaded { lower: 0, upper: 0 })),
{
    match r {
        ColumnRange::Loaded { lower, upper } => lower == 0 && upper == 0,
        ColumnRange::Missing => false,
    }
}

/// The range of a binary operator over operands within the given ranges.
pub fn combine(op: BinaryOp, a: ColumnRange, b: ColumnRange) -> (r: ColumnRange)
    ensures
        r == combined(op, a, b),
{
    match (a, b) {
        (
            ColumnRange::Loaded { lower: la, upper: ua },
            ColumnRange::Loaded { lower: lb, upper: ub },
        ) => match op {
            BinaryOp::And => if (la == 0 && ua == 0) || (lb == 0 && ub == 0) {
                ColumnRange::Loaded { lower: 0, upper: 0 }
            } else if (la > 0 || ua < 0) && (lb > 0 || ub < 0) {
                ColumnRange::Loaded { lower: 1, upper: 1 }
            } else {
                ColumnRange::Loaded { lower: 0, upper: 1 }
            },
            BinaryOp::Eq => if ua < lb || ub < la {
                ColumnRange::Loaded { lower: 0, upper: 0 }
            } else if la == ua && lb == ub && la == lb {
                ColumnRange::Loaded { lower: 1, upper: 1 }
            } else {
                ColumnRange::Loaded { lower: 0, upper: 1 }
            },
            BinaryOp::Lt => if ua < lb {
                ColumnRange::Loaded { lower: 1, upper: 1 }
            } else if la >= ub {
                ColumnRange::Loaded { lower: 0, upper: 0 }
            } else {
                ColumnRange::Loaded { lower: 0, upper: 1 }
            },
            BinaryOp::Gt => if la > ub {
                ColumnRange::Loaded { lower: 1, upper: 1 }
            } else if ua <= lb {
                ColumnRange::Loaded { lower: 0, upper: 0 }
            } else {
                ColumnRange::Loaded { lower: 0, upper: 1 }
            },
            BinaryOp::Plus => ColumnRange::Missing,
        },
        _ => match op {
            BinaryOp::Plus => ColumnRange::Missing,
            BinaryOp::And => if is_zero(a) || is_zero(b) {
                ColumnRange::Loaded { lower: 0, upper: 0 }
            } else {
                ColumnRange::Loaded { lower: 0, upper: 1 }
            },
            _ => ColumnRange::Loaded { lower: 0, upper: 1 },
        },
    }
}

/// What a range says of a predicate.
pub fn to_truth_value(range: ColumnRange) -> (t: TruthValue)
    ensures
        t == truth_of(range),
{
    match range {
        ColumnRange::Missing => TruthValue::Maybe,
        ColumnRange::Loaded { lower, upper } => if lower == 0 && upper == 0 {
            TruthValue::False
        } else if lower > 0 || upper < 0 {
            TruthValue::True
        } else {
            TruthValue::Maybe
        },
    }
}

/// Statistics are conservative: on a row whose cells lie within the ranges
/// of their columns, the value of an expression, where it is not null, lies
/// within the range that the statistics give the expression.
pub proof fn lemma_range_sound(e: BoundExpr, row: Seq<Option<i64>>, stats: Seq<ColumnRange>)
    requires
        e.fits(row.len()),
        within(row, stats),
    ensures
        match (e.value(row), e.range(stats)) {
            (Some(v), ColumnRange::Loaded { lower, upper }) => lower <= v <= upper,
            _ => true,
        },
    decreases e,
{
    match e {
        BoundExpr::Column(i) => {
            if i < stats.len() {
                assert(match (row[i as int], stats[i as int]) {
                    (Some(v), ColumnRange::Loaded { lower, upper }) => lower <= v <= upper,
                    _ => true,
                });
            }
        },
        BoundExpr::Literal(_) => {},
        BoundExpr::Binary(op, l, r) => {
            lemma_range_sound(*l, row, stats);
            lemma_range_sound(*r, row, stats);
        },
    }
}

/// A predicate that statistics prove false holds on no row that the
/// statistics cover.
pub proof fn lemma_false_predicate_selects_nothing(
    e: BoundExpr,
    row: Seq<Option<i64>>,
    stats: Seq<ColumnRange>,
)
    requires
        e.fits(row.len()),
        within(row, stats),
        truth_of(e.range(stats)) == TruthValue::False,
    ensures
        !e.holds(row),
{
    lemma_range_sound(e, row, stats);
}

/// Whether every column that the expression names is one of the fields and
/// the expression calls no function.
pub open spec fn resolvable(expr: Expr, fields: Seq<Field>) -> bool
    decreases expr,
{
    match expr {
        Expr::Column(name) => named(fields, name@),
        Expr::Literal(_) => true,
        Expr::Alias(inner, _) => resolvable(*inner, fields),
        Expr::Binary(_, l, r) => resolvable(*l, fields) && resolvable(*r, fields),
        Expr::ScalarFunction(_, _) => false,
    }
}

/// Whether field `i` is the first one of the given name.
pub open spec fn is_first(fields: Seq<Field>, name: Seq<char>, i: int) -> bool {
    &&& 0 <= i < fields.len()
    &&& fields[i].name@ == name
    &&& forall|j: int| 0 <= j < i ==> (#[trigger] fields[j]).name@ != name
}

/// The position of the first field of the given name.
pub open spec fn position(fields: Seq<Field>, name: Seq<char>) -> int {
    choose|i: int| is_first(fields, name, i)
}

/// There is one first field of a name.
pub proof fn lemma_position(fields: Seq<Field>, name: Seq<char>, i: int)
    requires
        is_first(fields, name, i),
    ensures
        position(fields, name) == i,
{
    let c = position(fields, name);
    assert(is_first(fields, name, c));
    if c < i {
        assert(fields[c].name@ != name);
    }
    if i < c {
        assert(fields[i].name@ != name);
    }
}

/// The expression with every column replaced by the position of the first
/// field of its name, and every renaming dropped.
pub open spec fn resolved(expr: Expr, fields: Seq<Field>) -> BoundExpr
    decreases expr,
{
    match expr {
        Expr::Column(name) => BoundExpr::Column(position(fields, name@) as usize),
        Expr::Literal(v) => BoundExpr::Literal(v),
        Expr::Alias(inner, _) => resolved(*inner, fields),
        Expr::Binary(op, l, r) => BoundExpr::Binary(
            op,
            Box::new(resolved(*l, fields)),
            Box::new(resolved(*r, fields)),
        ),
        Expr::ScalarFunction(_, _) => BoundExpr::Literal(None),
    }
}

/// Resolves the columns of an expression against a schema.
pub fn bind(expr: &Expr, schema: &Schema) -> (r: Option<BoundExpr>)
    ensures
        r is Some <==> resolvable(*expr, schema.fields@),
        r matches Some(b) ==> b == resolved(*expr, schema.fields@) && b.fits(schema.fields@.len()),
    decreases expr,
{
    match expr {
        Expr::Column(name) => match schema.index_of(name) {
            Some(i) => {
                proof {
                    lemma_position(schema.fields@, name@, i as int);
                }
                Some(BoundExpr::Column(i))
            },
            None => None,
        },
        Expr::Literal(v) => Some(BoundExpr::Literal(*v)),
        Expr::Alias(inner, _) => bind(inner, schema),
        Expr::Binary(op, l, r) => match bind(l, schema) {
            Some(bl) => match bind(r, schema) {
                Some(br) => Some(BoundExpr::Binary(*op, Box::new(bl), Box::new(br))),
                None => None,
            },
            None => None,
        },
        Expr::ScalarFunction(_, _) => None,
    }
}

/// Whether every expression of the list resolves against the fields.
pub open spec fn all_resolvable(exprs: Seq<Expr>, fields: Seq<Field>) -> bool {
    forall|i: int| 0 <= i < exprs.len() ==> resolvable(#[trigger] exprs[i], fields)
}

/// Every expression of the list, resolved against the fields.
pub open spec fn all_resolved(exprs: Seq<Expr>, fields: Seq<Field>) -> Seq<BoundExpr> {
    Seq::new(exprs.len(), |i: int| resolved(exprs[i], fields))
}

/// Every bound expression fits a row of that width.
pub open spec fn all_fit(bound: Seq<BoundExpr>, width: nat) -> bool {
    forall|i: int| 0 <= i < bound.len() ==> (#[trigger] bound[i]).fits(width)
}

/// Resolves every expression of a list against a schema.
pub fn bind_list(exprs: &Vec<Expr>, schema: &Schema) -> (r: Option<Vec<BoundExpr>>)
    ensures
        r is Some <==> all_resolvable(exprs@, schema.fields@),
        r matches Some(bound) ==> bound@ == all_resolved(exprs@, schema.fields@) && all_fit(
            bound@,
            schema.fields@.len(),
        ),
{
    let mut bound: Vec<BoundExpr> = Vec::new();
    let mut i: usize = 0;
    while i < exprs.len()
        invariant
            i <= exprs@.len(),
            bound@.len() == i,
            forall|j: int| 0 <= j < i ==> resolvable(#[trigger] exprs@[j], schema.fields@),
            forall|j: int|
                0 <= j < i ==> (#[trigger] bound@[j]) == resolved(exprs@[j], schema.fields@)
                    && bound@[j].fits(schema.fields@.len()),
        decreases exprs@.len() - i,
    {
        match bind(&exprs[i], schema) {
            Some(b) => bound.push(b),
            None => {
                assert(!resolvable(exprs@[i as int], schema.fields@));
                return None;
            },
        }
        i += 1;
    }
    assert(bound@ =~= all_resolved(exprs@, schema.fields@));
    Some(bound)
}

/// The values of the expressions on a row.
pub open spec fn row_values(bound: Seq<BoundExpr>, row: Seq<Option<i64>>) -> Seq<Option<i64>> {
    Seq::new(bound.len(), |j: int| bound[j].value(row))
}

/// The value of an expression on every row.
pub open spec fn values_of(rows: Seq<Seq<Option<i64>>>, e: BoundExpr) -> Seq<Option<i64>> {
    Seq::new(rows.len(), |r: int| e.value(rows[r]))
}

/// Evaluates the expressions on a row.
pub fn eval_row(bound: &Vec<BoundExpr>, row: &Row) -> (r: Row)
    requires
        all_fit(bound@, row@.len()),
    ensures
        r@ == row_values(bound@, row@),
{
    let mut out: Row = Vec::new();
    let mut j: usize = 0;
    while j < bound.len()
        invariant
            j <= bound@.len(),
            all_fit(bound@, row@.len()),
            out@ == row_values(bound@, row@).take(j as int),
        decreases bound@.len() - j,
    {
        assert(bound@[j as int].fits(row@.len()));
        out.push(bound[j].eval(row));
        j += 1;
        assert(out@ =~= row_values(bound@, row@).take(j as int));
    }
    assert(out@ =~= row_values(bound@, row@));
    out
}

/// Evaluates an expression on every row.
pub fn eval_column(rows: &Vec<Row>, e: &BoundExpr) -> (col: Vec<Option<i64>>)
    requires
        forall|r: int| 0 <= r < rows@.len() ==> e.fits((#[trigger] rows@[r])@.len() as nat),
    ensures
        col@ == values_of(keys_view(rows@), *e),
{
    let mut col: Vec<Option<i64>> = Vec::new();
    let mut r: usize = 0;
    while r < rows.len()
        invariant
            r <= rows@.len(),
            forall|q: int| 0 <= q < rows@.len() ==> e.fits((#[trigger] rows@[q])@.len() as nat),
            col@ == values_of(keys_view(rows@), *e).take(r as int),
        decreases rows@.len() - r,
    {
        assert(e.fits(rows@[r as int]@.len() as nat));
        col.push(e.eval(&rows[r]));
        r += 1;
        assert(col@ =~= values_of(keys_view(rows@), *e).take(r as int));
    }
    assert(col@ =~= values_of(keys_view(rows@), *e));
    col
}

} // verus!
