//! The data container: an unread source or a list of tables, with optional
//! column statistics.

use vstd::prelude::*;
use crate::plan::ScanTask;
use crate::schema::Schema;
use crate::table::Table;

verus! {

/// What is known of the non-null values of a column.
#[derive(Clone, Copy, Debug, PartialEq, Eq, Structural)]
pub enum ColumnRange {
    /// Nothing is known.
    Missing,
    /// Every non-null value lies between the bounds, both included.
    Loaded { lower: i64, upper: i64 },
}

/// Statistics of a table: one range per column of its schema.
#[derive(Debug)]
pub struct TableStatistics {
    pub columns: Vec<ColumnRange>,
}

impl TableStatistics {
    /// A copy of the statistics.
    pub fn duplicate(&self) -> (r: TableStatistics)
        ensures
            r.columns@ == self.columns@,
    {
        let mut columns: Vec<ColumnRange> = Vec::new();
        let mut i: usize = 0;
        while i < self.columns.len()
            invariant
                i <= self.columns@.len(),
                columns@ == self.columns@.take(i as int),
            decreases self.columns@.len() - i,
        {
            columns.push(self.columns[i]);
            i += 1;
            assert(columns@ =~= self.columns@.take(i as int));
        }
        assert(columns@ =~= self.columns@);
        TableStatistics { columns }
    }
}

/// The data of a container: still to be read, or read.
#[derive(Debug)]
pub enum TableState {
    Unloaded(ScanTask),
    Loaded(Vec<Table>),
}

/// A container of rows under a schema.
#[derive(Debug)]
pub struct MicroPartition {
    pub schema: Schema,
    pub state: TableState,
    pub statistics: Option<TableStatistics>,
}

impl MicroPartition {
    /// A container of tables that are already read.
    pub fn new_loaded(schema: Schema, tables: Vec<Table>, statistics: Option<TableStatistics>) -> (r:
        MicroPartition)
        ensures
            r.schema == schema,
            r.state == TableState::Loaded(tables),
            r.statistics == statistics,
    {
        MicroPartition { schema, state: TableState::Loaded(tables), statistics }
    }

    /// A container whose data is still to be read; its statistics are known.
    pub fn new_unloaded(schema: Schema, scan_task: ScanTask, statistics: TableStatistics) -> (r:
        MicroPartition)
        ensures
            r.schema == schema,
            r.state == TableState::Unloaded(scan_task),
            r.statistics == Some(statistics),
    {
        MicroPartition { schema, state: TableState::Unloaded(scan_task), statistics: Some(statistics) }
    }

    /// Whether the data is read.
    pub open spec fn is_loaded(self) -> bool {
        self.state is Loaded
    }

    /// The tables of a read container; none for an unread one.
    pub open spec fn tables(self) -> Seq<Table> {
        match self.state {
            TableState::Loaded(tables) => tables@,
            TableState::Unloaded(_) => Seq::empty(),
        }
    }

    /// Whether the container is read and holds no row.
    pub open spec fn is_empty(self) -> bool {
        self.state matches TableState::Loaded(tables) && forall|t: int|
            0 <= t < tables@.len() ==> (#[trigger] tables@[t]).rows@.len() == 0
    }

    /// A read container without tables and without statistics.
    pub fn empty(schema: Schema) -> (r: MicroPartition)
        ensures
            r.schema == schema,
            r.state matches TableState::Loaded(tables) && tables@.len() == 0,
            r.statistics is None,
            r.is_empty(),
    {
        MicroPartition { schema, state: TableState::Loaded(Vec::new()), statistics: None }
    }
}

} // verus!
