//! Tables of nullable integers, stored row by row.

use vstd::prelude::*;
use crate::schema::Schema;
use crate::window::keys_view;

verus! {

/// One row of a table: a cell per column.
pub type Row = Vec<Option<i64>>;

/// A batch of rows under a schema.
#[derive(Debug)]
pub struct Table {
    pub schema: Schema,
    pub rows: Vec<Row>,
}

/// A copy of a row.
pub fn copy_row(row: &Row) -> (r: Row)
    ensures
        r@ == row@,
{
    let mut out: Row = Vec::new();
    let mut i: usize = 0;
    while i < row.len()
        invariant
            i <= row@.len(),
            out@ == row@.take(i as int),
        decreases row@.len() - i,
    {
        out.push(row[i]);
        i += 1;
        assert(out@ =~= row@.take(i as int));
    }
    assert(out@ =~= row@);
    out
}

impl Table {
    /// The cells of the table, row by row.
    pub open spec fn cells(self) -> Seq<Seq<Option<i64>>> {
        keys_view(self.rows@)
    }

    /// The number of columns.
    pub open spec fn width(self) -> nat {
        self.schema.fields@.len()
    }

    /// Every row has one cell per column of the schema.
    pub open spec fn wf(self) -> bool {
        forall|r: int| 0 <= r < self.rows@.len() ==> (#[trigger] self.rows@[r])@.len() == self.width()
    }

    /// A table without rows.
    pub fn empty(schema: Schema) -> (t: Table)
        ensures
            t.schema == schema,
            t.rows@.len() == 0,
            t.wf(),
    {
        Table { schema, rows: Vec::new() }
    }

    pub fn num_rows(&self) -> (n: usize)
        ensures
            n == self.rows@.len(),
    {
        self.rows.len()
    }
}

} // verus!
