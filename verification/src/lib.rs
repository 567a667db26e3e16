//! Single-node execution core of a columnar query engine: lowering of logical
//! plans to physical plans, windowed analytic evaluation over partitions,
//! operations on partially materialized data containers, and the integer
//! kernels for timestamps and calendar intervals.

pub mod container;
pub mod engine;
pub mod eval;
pub mod expr;
pub mod functions;
pub mod ops;
pub mod partition;
pub mod plan;
pub mod schema;
pub mod sink;
pub mod table;
pub mod temporal;
pub mod translate;
pub mod window;
