//! Logical and physical query plans.

use vstd::prelude::*;
use crate::expr::{AggExpr, Expr, WindowExpr};
use crate::schema::Schema;

verus! {

/// Whether a node's statistics have been computed, and what they are.
#[derive(Clone, Copy, Debug, PartialEq, Eq, Structural)]
pub enum StatsState {
    NotMaterialized,
    Materialized { num_rows: u64, size_bytes: u64 },
}

/// One bound of a window frame, relative to the current row.
#[derive(Clone, Copy, Debug, PartialEq, Eq, Structural)]
pub enum WindowBoundary {
    UnboundedPreceding,
    UnboundedFollowing,
    Offset(i64),
}

/// The rows around the current row that an aggregate is computed over.
#[derive(Clone, Copy, Debug, PartialEq, Eq, Structural)]
pub struct WindowFrame {
    pub start: WindowBoundary,
    pub end: WindowBoundary,
}

/// How a window partitions, orders and frames its rows.
#[derive(Debug)]
pub struct WindowSpec {
    pub partition_by: Vec<Expr>,
    pub order_by: Vec<Expr>,
    /// One flag per ordering expression.
    pub descending: Vec<bool>,
    pub frame: Option<WindowFrame>,
    pub min_periods: usize,
}

/// Ordering keys with their directions and null placements.
#[derive(Debug)]
pub struct SortKeys {
    pub sort_by: Vec<Expr>,
    pub descending: Vec<bool>,
    pub nulls_first: Vec<bool>,
}

/// Columns to unpivot and the names of the two columns produced.
#[derive(Debug)]
pub struct UnpivotParams {
    pub ids: Vec<Expr>,
    pub values: Vec<Expr>,
    pub variable_name: String,
    pub value_name: String,
}

/// Parameters of a pivot.
#[derive(Debug)]
pub struct PivotParams {
    pub group_by: Vec<Expr>,
    pub pivot_column: Expr,
    pub value_column: Expr,
    pub aggregation: AggExpr,
    pub names: Vec<String>,
}

/// Parameters of a row sample. The fraction is held as the bit pattern of a
/// double-precision number.
#[derive(Clone, Copy, Debug, PartialEq, Eq, Structural)]
pub struct SampleParams {
    pub fraction_bits: u64,
    pub with_replacement: bool,
    pub seed: Option<u64>,
}

#[derive(Clone, Copy, Debug, PartialEq, Eq, Structural)]
pub enum JoinType {
    Inner,
    Left,
    Right,
    Outer,
    Anti,
    Semi,
}

#[derive(Clone, Copy, Debug, PartialEq, Eq, Structural)]
pub enum JoinStrategy {
    Hash,
    SortMerge,
    Broadcast,
}

/// A join condition split into equality keys per side and what is left over.
/// The keys are already normalized against the schemas of their sides.
#[derive(Debug)]
pub struct JoinPredicate {
    pub left_on: Vec<Expr>,
    pub right_on: Vec<Expr>,
    /// Per key pair, whether two nulls count as equal.
    pub null_equals_nulls: Vec<bool>,
    /// Conjuncts that are not equalities between the two sides.
    pub remaining: Vec<Expr>,
}

/// A table held in memory under a cache key.
#[derive(Debug)]
pub struct InMemoryInfo {
    pub cache_key: String,
    pub num_partitions: usize,
    pub num_rows: usize,
    pub size_bytes: usize,
}

/// One unit of reading from a file-backed source.
#[derive(Debug)]
pub struct ScanTask {
    pub path: String,
    /// The schema under which the rows are to be read.
    pub schema: Schema,
    pub num_rows: Option<u64>,
}

/// What a scan may skip.
#[derive(Debug)]
pub struct Pushdowns {
    pub filters: Option<Expr>,
    pub columns: Option<Vec<String>>,
    pub limit: Option<usize>,
}

/// How the scan tasks of a file-backed source are known.
#[derive(Debug)]
pub enum ScanState {
    /// The scan operator of that number lists them on demand.
    Operator(u64),
    /// They are listed already.
    Tasks(Vec<ScanTask>),
}

/// Where a source node reads from.
#[derive(Debug)]
pub enum SourceInfo {
    InMemory(InMemoryInfo),
    Physical { scan_state: ScanState, pushdowns: Pushdowns },
}

/// An output of plain files.
#[derive(Debug)]
pub struct OutputFileInfo {
    pub root_dir: String,
    pub partition_cols: Option<Vec<Expr>>,
}

/// A table of a catalog, by table-format family.
#[derive(Debug)]
pub enum CatalogType {
    Iceberg { table_name: String, table_location: String },
    DeltaLake { path: String, version: i32 },
}

/// A lake-format dataset.
#[derive(Debug)]
pub struct LanceInfo {
    pub path: String,
    pub mode: String,
}

/// A sink defined outside this engine.
#[derive(Debug)]
pub struct DataSinkInfo {
    pub name: String,
}

/// Where a sink node writes to.
#[derive(Debug)]
pub enum SinkInfo {
    OutputFile(OutputFileInfo),
    Catalog(CatalogType),
    Lance(LanceInfo),
    DataSink(DataSinkInfo),
}

/// A node of an optimized logical plan.
#[derive(Debug)]
#[allow(inconsistent_fields)]
pub enum LogicalPlan {
    Source { info: SourceInfo, output_schema: Schema, stats: StatsState },
    Filter { input: Box<LogicalPlan>, predicate: Expr, stats: StatsState },
    Limit { input: Box<LogicalPlan>, limit: u64, stats: StatsState },
    Project { input: Box<LogicalPlan>, projection: Vec<Expr>, schema: Schema, stats: StatsState },
    ActorPoolProject {
        input: Box<LogicalPlan>,
        projection: Vec<Expr>,
        schema: Schema,
        stats: StatsState,
    },
    Sample { input: Box<LogicalPlan>, params: SampleParams, stats: StatsState },
    Aggregate {
        input: Box<LogicalPlan>,
        aggregations: Vec<AggExpr>,
        groupby: Vec<Expr>,
        schema: Schema,
        stats: StatsState,
    },
    Window {
        input: Box<LogicalPlan>,
        window_functions: Vec<WindowExpr>,
        aliases: Vec<String>,
        window_spec: WindowSpec,
        schema: Schema,
        stats: StatsState,
    },
    Unpivot { input: Box<LogicalPlan>, params: UnpivotParams, schema: Schema, stats: StatsState },
    Pivot { input: Box<LogicalPlan>, params: PivotParams, schema: Schema, stats: StatsState },
    Sort { input: Box<LogicalPlan>, keys: SortKeys, stats: StatsState },
    TopN { input: Box<LogicalPlan>, keys: SortKeys, limit: u64, stats: StatsState },
    Join {
        left: Box<LogicalPlan>,
        right: Box<LogicalPlan>,
        on: JoinPredicate,
        join_type: JoinType,
        join_strategy: Option<JoinStrategy>,
        schema: Schema,
        stats: StatsState,
    },
    Distinct { input: Box<LogicalPlan>, stats: StatsState },
    Concat { input: Box<LogicalPlan>, other: Box<LogicalPlan>, stats: StatsState },
    Repartition { input: Box<LogicalPlan>, num_partitions: Option<usize> },
    MonotonicallyIncreasingId {
        input: Box<LogicalPlan>,
        column_name: String,
        schema: Schema,
        stats: StatsState,
    },
    Sink { input: Box<LogicalPlan>, schema: Schema, sink_info: SinkInfo, stats: StatsState },
    Explode { input: Box<LogicalPlan>, to_explode: Vec<Expr>, schema: Schema, stats: StatsState },
    Intersect { lhs: Box<LogicalPlan>, rhs: Box<LogicalPlan>, is_all: bool },
    Union { lhs: Box<LogicalPlan>, rhs: Box<LogicalPlan>, is_all: bool },
    SubqueryAlias { input: Box<LogicalPlan>, name: String },
}

/// A node of a physical plan: one concrete execution strategy, owning its
/// children.
#[derive(Debug)]
#[allow(inconsistent_fields)]
pub enum PhysicalPlan {
    InMemoryScan { info: InMemoryInfo, schema: Schema, stats: StatsState },
    EmptyScan { schema: Schema },
    PhysicalScan {
        scan_tasks: Vec<ScanTask>,
        pushdowns: Pushdowns,
        schema: Schema,
        stats: StatsState,
    },
    Filter { input: Box<PhysicalPlan>, predicate: Expr, stats: StatsState },
    Limit { input: Box<PhysicalPlan>, limit: u64, stats: StatsState },
    Project { input: Box<PhysicalPlan>, projection: Vec<Expr>, schema: Schema, stats: StatsState },
    ActorPoolProject {
        input: Box<PhysicalPlan>,
        projection: Vec<Expr>,
        schema: Schema,
        stats: StatsState,
    },
    Sample { input: Box<PhysicalPlan>, params: SampleParams, stats: StatsState },
    UnGroupedAggregate {
        input: Box<PhysicalPlan>,
        aggregations: Vec<AggExpr>,
        schema: Schema,
        stats: StatsState,
    },
    HashAggregate {
        input: Box<PhysicalPlan>,
        aggregations: Vec<AggExpr>,
        group_by: Vec<Expr>,
        schema: Schema,
        stats: StatsState,
    },
    WindowPartitionOnly {
        input: Box<PhysicalPlan>,
        partition_by: Vec<Expr>,
        schema: Schema,
        stats: StatsState,
        aggregations: Vec<AggExpr>,
        aliases: Vec<String>,
    },
    WindowPartitionAndOrderBy {
        input: Box<PhysicalPlan>,
        partition_by: Vec<Expr>,
        order_by: Vec<Expr>,
        descending: Vec<bool>,
        schema: Schema,
        stats: StatsState,
        functions: Vec<WindowExpr>,
        aliases: Vec<String>,
    },
    WindowPartitionAndDynamicFrame {
        input: Box<PhysicalPlan>,
        partition_by: Vec<Expr>,
        order_by: Vec<Expr>,
        descending: Vec<bool>,
        frame: WindowFrame,
        min_periods: usize,
        schema: Schema,
        stats: StatsState,
        aggregations: Vec<AggExpr>,
        aliases: Vec<String>,
    },
    WindowOrderByOnly {
        input: Box<PhysicalPlan>,
        order_by: Vec<Expr>,
        descending: Vec<bool>,
        schema: Schema,
        stats: StatsState,
        functions: Vec<WindowExpr>,
        aliases: Vec<String>,
    },
    Unpivot { input: Box<PhysicalPlan>, params: UnpivotParams, schema: Schema, stats: StatsState },
    Pivot { input: Box<PhysicalPlan>, params: PivotParams, schema: Schema, stats: StatsState },
    Sort { input: Box<PhysicalPlan>, keys: SortKeys, stats: StatsState },
    TopN { input: Box<PhysicalPlan>, keys: SortKeys, limit: u64, stats: StatsState },
    HashJoin {
        left: Box<PhysicalPlan>,
        right: Box<PhysicalPlan>,
        left_on: Vec<Expr>,
        right_on: Vec<Expr>,
        null_equals_nulls: Option<Vec<bool>>,
        join_type: JoinType,
        schema: Schema,
        stats: StatsState,
    },
    CrossJoin {
        left: Box<PhysicalPlan>,
        right: Box<PhysicalPlan>,
        schema: Schema,
        stats: StatsState,
    },
    Concat { input: Box<PhysicalPlan>, other: Box<PhysicalPlan>, stats: StatsState },
    MonotonicallyIncreasingId {
        input: Box<PhysicalPlan>,
        column_name: String,
        schema: Schema,
        stats: StatsState,
    },
    PhysicalWrite {
        input: Box<PhysicalPlan>,
        data_schema: Schema,
        file_schema: Schema,
        file_info: OutputFileInfo,
        stats: StatsState,
    },
    CatalogWrite {
        input: Box<PhysicalPlan>,
        catalog_type: CatalogType,
        data_schema: Schema,
        file_schema: Schema,
        stats: StatsState,
    },
    LanceWrite {
        input: Box<PhysicalPlan>,
        lance_info: LanceInfo,
        data_schema: Schema,
        file_schema: Schema,
        stats: StatsState,
    },
    DataSink {
        input: Box<PhysicalPlan>,
        data_sink_info: DataSinkInfo,
        file_schema: Schema,
        stats: StatsState,
    },
    Explode { input: Box<PhysicalPlan>, to_explode: Vec<Expr>, schema: Schema, stats: StatsState },
}

impl PhysicalPlan {
    /// The schema of the rows that the node produces.
    pub open spec fn schema_of(self) -> Schema
        decreases self,
    {
        match self {
            PhysicalPlan::InMemoryScan { schema, .. } => schema,
            PhysicalPlan::EmptyScan { schema } => schema,
            PhysicalPlan::PhysicalScan { schema, .. } => schema,
            PhysicalPlan::Filter { input, .. } => input.schema_of(),
            PhysicalPlan::Limit { input, .. } => input.schema_of(),
            PhysicalPlan::Project { schema, .. } => schema,
            PhysicalPlan::ActorPoolProject { schema, .. } => schema,
            PhysicalPlan::Sample { input, .. } => input.schema_of(),
            PhysicalPlan::UnGroupedAggregate { schema, .. } => schema,
            PhysicalPlan::HashAggregate { schema, .. } => schema,
            PhysicalPlan::WindowPartitionOnly { schema, .. } => schema,
            PhysicalPlan::WindowPartitionAndOrderBy { schema, .. } => schema,
            PhysicalPlan::WindowPartitionAndDynamicFrame { schema, .. } => schema,
            PhysicalPlan::WindowOrderByOnly { schema, .. } => schema,
            PhysicalPlan::Unpivot { schema, .. } => schema,
            PhysicalPlan::Pivot { schema, .. } => schema,
            PhysicalPlan::Sort { input, .. } => input.schema_of(),
            PhysicalPlan::TopN { input, .. } => input.schema_of(),
            PhysicalPlan::HashJoin { schema, .. } => schema,
            PhysicalPlan::CrossJoin { schema, .. } => schema,
            PhysicalPlan::Concat { input, .. } => input.schema_of(),
            PhysicalPlan::MonotonicallyIncreasingId { schema, .. } => schema,
            PhysicalPlan::PhysicalWrite { file_schema, .. } => file_schema,
            PhysicalPlan::CatalogWrite { file_schema, .. } => file_schema,
            PhysicalPlan::LanceWrite { file_schema, .. } => file_schema,
            PhysicalPlan::DataSink { file_schema, .. } => file_schema,
            PhysicalPlan::Explode { schema, .. } => schema,
        }
    }

    pub fn schema(&self) -> (r: &Schema)
        ensures
            *r == self.schema_of(),
        decreases self,
    {
        match self {
            PhysicalPlan::InMemoryScan { schema, .. } => schema,
            PhysicalPlan::EmptyScan { schema } => schema,
            PhysicalPlan::PhysicalScan { schema, .. } => schema,
            PhysicalPlan::Filter { input, .. } => input.schema(),
            PhysicalPlan::Limit { input, .. } => input.schema(),
            PhysicalPlan::Project { schema, .. } => schema,
            PhysicalPlan::ActorPoolProject { schema, .. } => schema,
            PhysicalPlan::Sample { input, .. } => input.schema(),
            PhysicalPlan::UnGroupedAggregate { schema, .. } => schema,
            PhysicalPlan::HashAggregate { schema, .. } => schema,
            PhysicalPlan::WindowPartitionOnly { schema, .. } => schema,
            PhysicalPlan::WindowPartitionAndOrderBy { schema, .. } => schema,
            PhysicalPlan::WindowPartitionAndDynamicFrame { schema, .. } => schema,
            PhysicalPlan::WindowOrderByOnly { schema, .. } => schema,
            PhysicalPlan::Unpivot { schema, .. } => schema,
            PhysicalPlan::Pivot { schema, .. } => schema,
            PhysicalPlan::Sort { input, .. } => input.schema(),
            PhysicalPlan::TopN { input, .. } => input.schema(),
            PhysicalPlan::HashJoin { schema, .. } => schema,
            PhysicalPlan::CrossJoin { schema, .. } => schema,
            PhysicalPlan::Concat { input, .. } => input.schema(),
            PhysicalPlan::MonotonicallyIncreasingId { schema, .. } => schema,
            PhysicalPlan::PhysicalWrite { file_schema, .. } => file_schema,
            PhysicalPlan::CatalogWrite { file_schema, .. } => file_schema,
            PhysicalPlan::LanceWrite { file_schema, .. } => file_schema,
            PhysicalPlan::DataSink { file_schema, .. } => file_schema,
            PhysicalPlan::Explode { schema, .. } => schema,
        }
    }
}

} // verus!
