//! Expressions over the columns of a table, and the analytic functions of a
//! window.

use vstd::prelude::*;

verus! {

/// A binary operator on nullable integers; truth is `1`, falsity `0`.
#[derive(Clone, Copy, Debug, PartialEq, Eq, Structural)]
pub enum BinaryOp {
    And,
    Eq,
    Lt,
    Gt,
    Plus,
}

/// An expression over the columns of a table.
#[derive(Debug)]
pub enum Expr {
    /// The column of that name.
    Column(String),
    /// A constant, possibly null.
    Literal(Option<i64>),
    /// The inner expression under another output name.
    Alias(Box<Expr>, String),
    Binary(BinaryOp, Box<Expr>, Box<Expr>),
    /// A call of a named scalar function.
    ScalarFunction(String, Vec<Expr>),
}

/// The column of the given name.
pub fn resolved_col(name: String) -> (e: Expr)
    ensures
        e == Expr::Column(name),
{
    Expr::Column(name)
}

/// The kinds of aggregation.
#[derive(Clone, Copy, Debug, PartialEq, Eq, Structural)]
pub enum AggKind {
    Count,
    Sum,
    Min,
    Max,
}

/// An aggregation of one input expression.
#[derive(Debug)]
pub struct AggExpr {
    pub kind: AggKind,
    pub input: Expr,
}

/// An analytic function evaluated over a window.
#[derive(Debug)]
pub enum WindowExpr {
    Agg(AggExpr),
    RowNumber,
    Rank,
    DenseRank,
    Offset { input: Expr, offset: i64, default: Option<Expr> },
}

/// The registered name of the JSON query function.
pub open spec fn json_query_name() -> Seq<char> {
    "json_query"@
}

/// The call of the JSON query function on a column of JSON text and a query.
pub fn json_query(input: Expr, query: Expr) -> (e: Expr)
    ensures
        e matches Expr::ScalarFunction(name, args) && name@ == json_query_name() && args@ == seq![
            input,
            query,
        ],
{
    let mut args: Vec<Expr> = Vec::new();
    args.push(input);
    args.push(query);
    assert(args@ =~= seq![input, query]);
    Expr::ScalarFunction("json_query".to_string(), args)
}

} // verus!
