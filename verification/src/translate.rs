//! Lowering of an optimized logical plan to a physical plan.

use vstd::prelude::*;
use crate::expr::{AggExpr, Expr, WindowExpr, resolved_col};
use crate::plan::{
    JoinPredicate,
    JoinStrategy,
    JoinType,
    LogicalPlan,
    PhysicalPlan,
    PivotParams,
    Pushdowns,
    SampleParams,
    ScanState,
    ScanTask,
    SinkInfo,
    SortKeys,
    SourceInfo,
    StatsState,
    UnpivotParams,
    WindowSpec,
};
use crate::schema::Schema;

verus! {

/// The classes of failure.
#[derive(Clone, Copy, Debug, PartialEq, Eq, Structural)]
pub enum ErrorKind {
    NotImplemented,
    ValueError,
    TypeError,
    InternalError,
    ComputeError,
}

/// Why a plan could not be lowered.
#[derive(Clone, Debug, PartialEq, Eq)]
pub enum PlanError {
    /// A join asked for a strategy other than hash join.
    NonHashJoin,
    /// A join condition has conjuncts that are not equalities.
    NonEqualityJoin,
    /// A window with ordering and a frame but no partitioning.
    OrderByWithFrame,
    /// A window with no ordering and either no partitioning or a frame.
    InvalidWindow,
    /// A window that supports aggregations only was given another function;
    /// the position of the first such function among the window functions.
    NonAggregateWindowFunction(usize),
    /// A set intersection survived optimization.
    UnexpectedIntersect,
    /// A set union survived optimization.
    UnexpectedUnion,
    /// A subquery alias survived optimization.
    UnexpectedAlias,
    /// A scan operator could not list its scan tasks; what it said of its
    /// failure.
    ScanFailed(String),
}

impl PlanError {
    pub open spec fn class(self) -> ErrorKind {
        match self {
            PlanError::NonHashJoin => ErrorKind::NotImplemented,
            PlanError::NonEqualityJoin => ErrorKind::NotImplemented,
            PlanError::OrderByWithFrame => ErrorKind::NotImplemented,
            PlanError::InvalidWindow => ErrorKind::ValueError,
            PlanError::NonAggregateWindowFunction(_) => ErrorKind::TypeError,
            PlanError::UnexpectedIntersect => ErrorKind::InternalError,
            PlanError::UnexpectedUnion => ErrorKind::InternalError,
            PlanError::UnexpectedAlias => ErrorKind::InternalError,
            PlanError::ScanFailed(_) => ErrorKind::ComputeError,
        }
    }

    pub fn kind(&self) -> (k: ErrorKind)
        ensures
            k == self.class(),
    {
        match self {
            PlanError::NonHashJoin => ErrorKind::NotImplemented,
            PlanError::NonEqualityJoin => ErrorKind::NotImplemented,
            PlanError::OrderByWithFrame => ErrorKind::NotImplemented,
            PlanError::InvalidWindow => ErrorKind::ValueError,
            PlanError::NonAggregateWindowFunction(_) => ErrorKind::TypeError,
            PlanError::UnexpectedIntersect => ErrorKind::InternalError,
            PlanError::UnexpectedUnion => ErrorKind::InternalError,
            PlanError::UnexpectedAlias => ErrorKind::InternalError,
            PlanError::ScanFailed(_) => ErrorKind::ComputeError,
        }
    }

    /// The text shown to the caller.
    pub open spec fn text(self) -> Seq<char> {
        match self {
            PlanError::NonHashJoin => "Only hash join is supported for now"@,
            PlanError::NonEqualityJoin => "Execution of non-equality join"@,
            PlanError::OrderByWithFrame => "Window with order by and frame not yet implemented"@,
            PlanError::InvalidWindow => "Window requires either partition by or order by"@,
            PlanError::NonAggregateWindowFunction(_) => "Window function not implemented in this kind of window, only aggregation functions are supported"@,
            PlanError::UnexpectedIntersect => "Intersect should already be optimized away"@,
            PlanError::UnexpectedUnion => "Union should already be optimized away"@,
            PlanError::UnexpectedAlias => "Alias should already be optimized away"@,
            PlanError::ScanFailed(said) => said@,
        }
    }

    pub fn message(&self) -> (m: String)
        ensures
            m@ == self.text(),
    {
        match self {
            PlanError::NonHashJoin => "Only hash join is supported for now".to_string(),
            PlanError::NonEqualityJoin => "Execution of non-equality join".to_string(),
            PlanError::OrderByWithFrame => "Window with order by and frame not yet implemented".to_string(),
            PlanError::InvalidWindow => "Window requires either partition by or order by".to_string(),
            PlanError::NonAggregateWindowFunction(_) => "Window function not implemented in this kind of window, only aggregation functions are supported".to_string(),
            PlanError::UnexpectedIntersect => "Intersect should already be optimized away".to_string(),
            PlanError::UnexpectedUnion => "Union should already be optimized away".to_string(),
            PlanError::UnexpectedAlias => "Alias should already be optimized away".to_string(),
            PlanError::ScanFailed(said) => said.clone(),
        }
    }
}

/// The scan operators of a plan, by number.
pub trait ScanOperators {
    /// Lists the scan tasks of a source under the given pushdowns, or says
    /// why it cannot.
    fn to_scan_tasks(&self, operator: u64, pushdowns: &Pushdowns) -> Result<Vec<ScanTask>, String>;
}

/// Whether every function of the list is an aggregation.
pub open spec fn all_aggregates(functions: Seq<WindowExpr>) -> bool {
    forall|i: int| 0 <= i < functions.len() ==> (#[trigger] functions[i]) is Agg
}

/// Whether function `i` is the first of the list that is no aggregation.
pub open spec fn is_first_other(functions: Seq<WindowExpr>, i: int) -> bool {
    &&& 0 <= i < functions.len()
    &&& !(functions[i] is Agg)
    &&& forall|j: int| 0 <= j < i ==> (#[trigger] functions[j]) is Agg
}

/// The position of the first function of the list that is no aggregation.
pub open spec fn first_other(functions: Seq<WindowExpr>) -> int {
    choose|i: int| is_first_other(functions, i)
}

/// There is one first function that is no aggregation.
pub proof fn lemma_first_other(functions: Seq<WindowExpr>, i: int)
    requires
        is_first_other(functions, i),
    ensures
        first_other(functions) == i,
        !all_aggregates(functions),
{
    let c = first_other(functions);
    assert(is_first_other(functions, c));
    if c < i {
        assert(functions[c] is Agg);
    }
    if i < c {
        assert(functions[i] is Agg);
    }
}

/// Whether `aggregations` holds, in order, the aggregation inside each
/// function of the list.
pub open spec fn aggregates_of(functions: Seq<WindowExpr>, aggregations: Seq<AggExpr>) -> bool {
    &&& aggregations.len() == functions.len()
    &&& forall|i: int|
        0 <= i < functions.len() ==> functions[i] == WindowExpr::Agg(#[trigger] aggregations[i])
}

/// Whether `columns` refers, in order, to every column of the schema by name.
pub open spec fn columns_of(schema: Schema, columns: Seq<Expr>) -> bool {
    &&& columns.len() == schema.fields@.len()
    &&& forall|i: int|
        0 <= i < columns.len() ==> #[trigger] columns[i] == Expr::Column(schema.fields@[i].name)
}

/// The failure that the shape of a window itself causes, if any.
pub open spec fn window_failure(spec: WindowSpec, functions: Seq<WindowExpr>) -> Option<
    PlanError,
> {
    let partitioned = spec.partition_by@.len() > 0;
    let ordered = spec.order_by@.len() > 0;
    if partitioned {
        if !ordered && spec.frame is Some {
            Some(PlanError::InvalidWindow)
        } else if ordered && spec.frame is None {
            None
        } else if all_aggregates(functions) {
            None
        } else {
            Some(PlanError::NonAggregateWindowFunction(first_other(functions) as usize))
        }
    } else if ordered {
        if spec.frame is Some {
            Some(PlanError::OrderByWithFrame)
        } else {
            None
        }
    } else {
        Some(PlanError::InvalidWindow)
    }
}

/// The failure of its own with which lowering a plan ends, if the plan has
/// one: the first one met when children are lowered before their parent and
/// left before right, except that a join checks its strategy before its
/// children. The failure of a scan operator is not among them.
#[verifier::opaque]
pub open spec fn failure(plan: LogicalPlan) -> Option<PlanError>
    decreases plan,
{
    match plan {
        LogicalPlan::Source { .. } => None,
        LogicalPlan::Filter { input, .. } => failure(*input),
        LogicalPlan::Limit { input, .. } => failure(*input),
        LogicalPlan::Project { input, .. } => failure(*input),
        LogicalPlan::ActorPoolProject { input, .. } => failure(*input),
        LogicalPlan::Sample { input, .. } => failure(*input),
        LogicalPlan::Aggregate { input, .. } => failure(*input),
        LogicalPlan::Window { input, window_functions, window_spec, .. } => {
            if failure(*input) is Some {
                failure(*input)
            } else {
                window_failure(window_spec, window_functions@)
            }
        },
        LogicalPlan::Unpivot { input, .. } => failure(*input),
        LogicalPlan::Pivot { input, .. } => failure(*input),
        LogicalPlan::Sort { input, .. } => failure(*input),
        LogicalPlan::TopN { input, .. } => failure(*input),
        LogicalPlan::Join { left, right, on, join_strategy, .. } => {
            if join_strategy is Some && join_strategy != Some(JoinStrategy::Hash) {
                Some(PlanError::NonHashJoin)
            } else if failure(*left) is Some {
                failure(*left)
            } else if failure(*right) is Some {
                failure(*right)
            } else if on.remaining@.len() > 0 {
                Some(PlanError::NonEqualityJoin)
            } else {
                None
            }
        },
        LogicalPlan::Distinct { input, .. } => failure(*input),
        LogicalPlan::Concat { input, other, .. } => {
            if failure(*input) is Some {
                failure(*input)
            } else {
                failure(*other)
            }
        },
        LogicalPlan::Repartition { input, .. } => failure(*input),
        LogicalPlan::MonotonicallyIncreasingId { input, .. } => failure(*input),
        LogicalPlan::Sink { input, .. } => failure(*input),
        LogicalPlan::Explode { input, .. } => failure(*input),
        LogicalPlan::Intersect { .. } => Some(PlanError::UnexpectedIntersect),
        LogicalPlan::Union { .. } => Some(PlanError::UnexpectedUnion),
        LogicalPlan::SubqueryAlias { .. } => Some(PlanError::UnexpectedAlias),
    }
}

/// What a source asks of the scan operators before it is lowered: the
/// number of its operator and its own pushdowns, where its scan tasks are
/// still to be listed.
pub open spec fn requested(info: SourceInfo) -> Option<(u64, Pushdowns)> {
    match info {
        SourceInfo::Physical { scan_state: ScanState::Operator(operator), pushdowns } => Some(
            (operator, pushdowns),
        ),
        _ => None,
    }
}

/// Whether lowering the plan asks a scan operator before it meets the node
/// that `failure` names: whether, children before their parent and left
/// before right, a source whose scan tasks are still to be listed is reached
/// before any node that fails.
#[verifier::opaque]
pub open spec fn operator_met_first(plan: LogicalPlan) -> bool
    decreases plan,
{
    match plan {
        LogicalPlan::Source { info, .. } => requested(info) is Some,
        LogicalPlan::Filter { input, .. } => operator_met_first(*input),
        LogicalPlan::Limit { input, .. } => operator_met_first(*input),
        LogicalPlan::Project { input, .. } => operator_met_first(*input),
        LogicalPlan::ActorPoolProject { input, .. } => operator_met_first(*input),
        LogicalPlan::Sample { input, .. } => operator_met_first(*input),
        LogicalPlan::Aggregate { input, .. } => operator_met_first(*input),
        LogicalPlan::Window { input, .. } => operator_met_first(*input),
        LogicalPlan::Unpivot { input, .. } => operator_met_first(*input),
        LogicalPlan::Pivot { input, .. } => operator_met_first(*input),
        LogicalPlan::Sort { input, .. } => operator_met_first(*input),
        LogicalPlan::TopN { input, .. } => operator_met_first(*input),
        LogicalPlan::Join { left, right, join_strategy, .. } => {
            if join_strategy is Some && join_strategy != Some(JoinStrategy::Hash) {
                false
            } else {
                operator_met_first(*left) || (failure(*left) is None && operator_met_first(*right))
            }
        },
        LogicalPlan::Distinct { input, .. } => operator_met_first(*input),
        LogicalPlan::Concat { input, other, .. } => operator_met_first(*input) || (failure(*input)
            is None && operator_met_first(*other)),
        LogicalPlan::Repartition { input, .. } => operator_met_first(*input),
        LogicalPlan::MonotonicallyIncreasingId { input, .. } => operator_met_first(*input),
        LogicalPlan::Sink { input, .. } => operator_met_first(*input),
        LogicalPlan::Explode { input, .. } => operator_met_first(*input),
        LogicalPlan::Intersect { .. } => false,
        LogicalPlan::Union { .. } => false,
        LogicalPlan::SubqueryAlias { .. } => false,
    }
}

/// Whether `r` is what lowering `plan` may return. A plan is returned only
/// for a plan without failure, and `lowers` relates it to the plan. A
/// failure is the one that `failure` names, unless a scan operator is asked
/// before the node that fails is met: then it may also be the failure of a
/// scan operator, and no other. So where no scan operator fails the result
/// is fixed: the failure that `failure` names, and a plan where it names
/// none.
pub open spec fn outcome(plan: LogicalPlan, r: Result<PhysicalPlan, PlanError>) -> bool {
    match r {
        Ok(p) => failure(plan) is None && lowers(plan, p),
        Err(e) => failure(plan) == Some(e) || (operator_met_first(plan) && e is ScanFailed),
    }
}

/// Whether `p` is the physical node that a window over the lowered input
/// `*child` must become.
#[verifier::opaque]
pub open spec fn lowers_window(
    l: LogicalPlan,
    p: PhysicalPlan,
) -> bool
    recommends
        l is Window,
    decreases l, 0int,
{
    match l {
        LogicalPlan::Window { input, window_functions, aliases, window_spec, schema, stats } => {
            let partitioned = window_spec.partition_by@.len() > 0;
            let ordered = window_spec.order_by@.len() > 0;
            if partitioned && !ordered && window_spec.frame is None {
                p matches PhysicalPlan::WindowPartitionOnly {
                    input: pi,
                    partition_by: pb,
                    schema: ps,
                    stats: pst,
                    aggregations,
                    aliases: pal,
                } && lowers(*input, *pi) && pb == window_spec.partition_by && ps == schema && pst
                    == stats && pal == aliases && aggregates_of(window_functions@, aggregations@)
            } else if partitioned && ordered && window_spec.frame is None {
                p matches PhysicalPlan::WindowPartitionAndOrderBy {
                    input: pi,
                    partition_by: pb,
                    order_by: po,
                    descending: pd,
                    schema: ps,
                    stats: pst,
                    functions,
                    aliases: pal,
                } && lowers(*input, *pi) && pb == window_spec.partition_by && po
                    == window_spec.order_by && pd == window_spec.descending && ps == schema && pst
                    == stats && functions == window_functions && pal == aliases
            } else if partitioned && ordered {
                p matches PhysicalPlan::WindowPartitionAndDynamicFrame {
                    input: pi,
                    partition_by: pb,
                    order_by: po,
                    descending: pd,
                    frame,
                    min_periods,
                    schema: ps,
                    stats: pst,
                    aggregations,
                    aliases: pal,
                } && lowers(*input, *pi) && pb == window_spec.partition_by && po
                    == window_spec.order_by && pd == window_spec.descending && Some(frame)
                    == window_spec.frame && min_periods == window_spec.min_periods && ps == schema
                    && pst == stats && pal == aliases && aggregates_of(
                    window_functions@,
                    aggregations@,
                )
            } else if !partitioned && ordered && window_spec.frame is None {
                p matches PhysicalPlan::WindowOrderByOnly {
                    input: pi,
                    order_by: po,
                    descending: pd,
                    schema: ps,
                    stats: pst,
                    functions,
                    aliases: pal,
                } && lowers(*input, *pi) && po == window_spec.order_by && pd
                    == window_spec.descending && ps == schema && pst == stats && functions
                    == window_functions && pal == aliases
            } else {
                false
            }
        },
        _ => false,
    }
}

/// Whether `p` is the physical plan that the logical plan `l` lowers to.
#[verifier::opaque]
pub open spec fn lowers(l: LogicalPlan, p: PhysicalPlan) -> bool
    decreases l, 1int,
{
    match l {
        LogicalPlan::Source { info, output_schema, stats } => match info {
            SourceInfo::InMemory(mem) => p == (PhysicalPlan::InMemoryScan {
                info: mem,
                schema: output_schema,
                stats,
            }),
            SourceInfo::Physical { scan_state, pushdowns } => match scan_state {
                ScanState::Tasks(scan_tasks) => if scan_tasks@.len() == 0 {
                    p == (PhysicalPlan::EmptyScan { schema: output_schema })
                } else {
                    p == (PhysicalPlan::PhysicalScan {
                        scan_tasks,
                        pushdowns,
                        schema: output_schema,
                        stats,
                    })
                },
                ScanState::Operator(_) => p == (PhysicalPlan::EmptyScan { schema: output_schema })
                    || (p matches PhysicalPlan::PhysicalScan {
                    scan_tasks,
                    pushdowns: pp,
                    schema: ps,
                    stats: pst,
                } && scan_tasks@.len() > 0 && pp == pushdowns && ps == output_schema && pst
                    == stats),
            },
        },
        LogicalPlan::Filter { input, predicate, stats } => {
            p matches PhysicalPlan::Filter { input: pi, predicate: pp, stats: pst } && lowers(
                *input,
                *pi,
            ) && pp == predicate && pst == stats
        },
        LogicalPlan::Limit { input, limit, stats } => {
            p matches PhysicalPlan::Limit { input: pi, limit: pl, stats: pst } && lowers(
                *input,
                *pi,
            ) && pl == limit && pst == stats
        },
        LogicalPlan::Project { input, projection, schema, stats } => {
            p matches PhysicalPlan::Project { input: pi, projection: pp, schema: ps, stats: pst }
                && lowers(*input, *pi) && pp == projection && ps == schema && pst == stats
        },
        LogicalPlan::ActorPoolProject { input, projection, schema, stats } => {
            p matches PhysicalPlan::ActorPoolProject {
                input: pi,
                projection: pp,
                schema: ps,
                stats: pst,
            } && lowers(*input, *pi) && pp == projection && ps == schema && pst == stats
        },
        LogicalPlan::Sample { input, params, stats } => {
            p matches PhysicalPlan::Sample { input: pi, params: pp, stats: pst } && lowers(
                *input,
                *pi,
            ) && pp == params && pst == stats
        },
        LogicalPlan::Aggregate { input, aggregations, groupby, schema, stats } => {
            if groupby@.len() == 0 {
                p matches PhysicalPlan::UnGroupedAggregate {
                    input: pi,
                    aggregations: pa,
                    schema: ps,
                    stats: pst,
                } && lowers(*input, *pi) && pa == aggregations && ps == schema && pst == stats
            } else {
                p matches PhysicalPlan::HashAggregate {
                    input: pi,
                    aggregations: pa,
                    group_by: pg,
                    schema: ps,
                    stats: pst,
                } && lowers(*input, *pi) && pa == aggregations && pg == groupby && ps == schema
                    && pst == stats
            }
        },
        LogicalPlan::Window { .. } => lowers_window(l, p),
        LogicalPlan::Unpivot { input, params, schema, stats } => {
            p matches PhysicalPlan::Unpivot { input: pi, params: pp, schema: ps, stats: pst }
                && lowers(*input, *pi) && pp == params && ps == schema && pst == stats
        },
        LogicalPlan::Pivot { input, params, schema, stats } => {
            p matches PhysicalPlan::Pivot { input: pi, params: pp, schema: ps, stats: pst }
                && lowers(*input, *pi) && pp == params && ps == schema && pst == stats
        },
        LogicalPlan::Sort { input, keys, stats } => {
            p matches PhysicalPlan::Sort { input: pi, keys: pk, stats: pst } && lowers(*input, *pi)
                && pk == keys && pst == stats
        },
        LogicalPlan::TopN { input, keys, limit, stats } => {
            p matches PhysicalPlan::TopN { input: pi, keys: pk, limit: pl, stats: pst } && lowers(
                *input,
                *pi,
            ) && pk == keys && pl == limit && pst == stats
        },
        LogicalPlan::Join { left, right, on, join_type, join_strategy, schema, stats } => {
            if on.left_on@.len() == 0 && on.right_on@.len() == 0 && join_type == JoinType::Inner {
                p matches PhysicalPlan::CrossJoin { left: pl, right: pr, schema: ps, stats: pst }
                    && lowers(*left, *pl) && lowers(*right, *pr) && ps == schema && pst == stats
            } else {
                p matches PhysicalPlan::HashJoin {
                    left: pl,
                    right: pr,
                    left_on,
                    right_on,
                    null_equals_nulls,
                    join_type: pj,
                    schema: ps,
                    stats: pst,
                } && lowers(*left, *pl) && lowers(*right, *pr) && left_on == on.left_on
                    && right_on == on.right_on && null_equals_nulls == Some(on.null_equals_nulls)
                    && pj == join_type && ps == schema && pst == stats
            }
        },
        LogicalPlan::Distinct { input, stats } => {
            p matches PhysicalPlan::HashAggregate {
                input: pi,
                aggregations,
                group_by,
                schema: ps,
                stats: pst,
            } && lowers(*input, *pi) && aggregations@.len() == 0 && columns_of(
                pi.schema_of(),
                group_by@,
            ) && ps.fields@ == pi.schema_of().fields@ && pst == stats
        },
        LogicalPlan::Concat { input, other, stats } => {
            p matches PhysicalPlan::Concat { input: pi, other: po, stats: pst } && lowers(
                *input,
                *pi,
            ) && lowers(*other, *po) && pst == stats
        },
        LogicalPlan::Repartition { input, .. } => lowers(*input, p),
        LogicalPlan::MonotonicallyIncreasingId { input, column_name, schema, stats } => {
            p matches PhysicalPlan::MonotonicallyIncreasingId {
                input: pi,
                column_name: pc,
                schema: ps,
                stats: pst,
            } && lowers(*input, *pi) && pc == column_name && ps == schema && pst == stats
        },
        LogicalPlan::Sink { input, schema, sink_info, stats } => match sink_info {
            SinkInfo::OutputFile(info) => {
                p matches PhysicalPlan::PhysicalWrite {
                    input: pi,
                    data_schema,
                    file_schema,
                    file_info,
                    stats: pst,
                } && lowers(*input, *pi) && data_schema.fields@ == pi.schema_of().fields@
                    && file_schema == schema && file_info == info && pst == stats
            },
            SinkInfo::Catalog(catalog) => {
                p matches PhysicalPlan::CatalogWrite {
                    input: pi,
                    catalog_type,
                    data_schema,
                    file_schema,
                    stats: pst,
                } && lowers(*input, *pi) && data_schema.fields@ == pi.schema_of().fields@
                    && file_schema == schema && catalog_type == catalog && pst == stats
            },
            SinkInfo::Lance(lance) => {
                p matches PhysicalPlan::LanceWrite {
                    input: pi,
                    lance_info,
                    data_schema,
                    file_schema,
                    stats: pst,
                } && lowers(*input, *pi) && data_schema.fields@ == pi.schema_of().fields@
                    && file_schema == schema && lance_info == lance && pst == stats
            },
            SinkInfo::DataSink(sink) => {
                p matches PhysicalPlan::DataSink { input: pi, data_sink_info, file_schema, stats: pst }
                    && lowers(*input, *pi) && file_schema == schema && data_sink_info == sink
                    && pst == stats
            },
        },
        LogicalPlan::Explode { input, to_explode, schema, stats } => {
            p matches PhysicalPlan::Explode { input: pi, to_explode: pe, schema: ps, stats: pst }
                && lowers(*input, *pi) && pe == to_explode && ps == schema && pst == stats
        },
        LogicalPlan::Intersect { .. } => false,
        LogicalPlan::Union { .. } => false,
        LogicalPlan::SubqueryAlias { .. } => false,
    }
}

/// Takes the aggregation out of every function of the list, or gives the
/// position of the first function that is no aggregation.
pub fn take_aggregates(functions: Vec<WindowExpr>) -> (r: Result<Vec<AggExpr>, usize>)
    ensures
        r is Ok <==> all_aggregates(functions@),
        match r {
            Ok(aggregations) => aggregates_of(functions@, aggregations@),
            Err(i) => i == first_other(functions@) && is_first_other(functions@, i as int),
        },
{
    let ghost all = functions@;
    let n: usize = functions.len();
    let mut rest = functions;
    let mut reversed: Vec<AggExpr> = Vec::new();
    let mut other: Option<usize> = None;
    while rest.len() > 0
        invariant
            all == functions@,
            n == all.len(),
            rest@.len() <= n,
            rest@ == all.take(rest@.len() as int),
            other is None ==> rest@.len() + reversed@.len() == n,
            other is None ==> forall|k: int|
                0 <= k < reversed@.len() ==> all[n - 1 - k] == WindowExpr::Agg(
                    #[trigger] reversed@[k],
                ),
            other is Some ==> rest@.len() <= other.unwrap() < n && !(all[other.unwrap() as int]
                is Agg),
            other is Some ==> forall|j: int|
                rest@.len() <= j < other.unwrap() ==> (#[trigger] all[j]) is Agg,
        decreases rest@.len(),
    {
        let ghost before = rest@;
        let place: usize = rest.len() - 1;
        let last = rest.pop().unwrap();
        assert(last == all[place as int]);
        assert(rest@ =~= all.take(rest@.len() as int));
        match last {
            WindowExpr::Agg(agg) => {
                if other.is_none() {
                    reversed.push(agg);
                }
            },
            _ => {
                other = Some(place);
            },
        }
    }
    match other {
        Some(i) => {
            proof {
                lemma_first_other(all, i as int);
            }
            return Err(i);
        },
        None => {},
    }
    let mut aggregations: Vec<AggExpr> = Vec::new();
    while reversed.len() > 0
        invariant
            n == all.len(),
            aggregations@.len() + reversed@.len() == n,
            forall|k: int|
                0 <= k < reversed@.len() ==> all[n - 1 - k] == WindowExpr::Agg(
                    #[trigger] reversed@[k],
                ),
            forall|i: int|
                0 <= i < aggregations@.len() ==> all[i] == WindowExpr::Agg(
                    #[trigger] aggregations@[i],
                ),
        decreases reversed@.len(),
    {
        let ghost k = reversed@.len() - 1;
        let ghost before = reversed@;
        let agg = reversed.pop().unwrap();
        assert(agg == before[k]);
        assert(forall|j: int| 0 <= j < reversed@.len() ==> reversed@[j] == before[j]);
        aggregations.push(agg);
    }
    assert forall|i: int| 0 <= i < all.len() implies (#[trigger] all[i]) is Agg by {
        assert(all[i] == WindowExpr::Agg(aggregations@[i]));
    }
    Ok(aggregations)
}

/// A reference to every column of the schema, in order.
pub fn column_refs(schema: &Schema) -> (columns: Vec<Expr>)
    ensures
        columns_of(*schema, columns@),
{
    let mut columns: Vec<Expr> = Vec::new();
    let mut i: usize = 0;
    while i < schema.fields.len()
        invariant
            i <= schema.fields@.len(),
            columns@.len() == i,
            forall|j: int|
                0 <= j < i ==> #[trigger] columns@[j] == Expr::Column(schema.fields@[j].name),
        decreases schema.fields@.len() - i,
    {
        columns.push(resolved_col(schema.fields[i].name.clone()));
        i += 1;
    }
    columns
}

/// Lowers a window over an input that is already lowered.
fn lower_window(
    child: PhysicalPlan,
    window_functions: Vec<WindowExpr>,
    aliases: Vec<String>,
    window_spec: WindowSpec,
    schema: Schema,
    stats: StatsState,
    Ghost(input): Ghost<LogicalPlan>,
) -> (r: Result<PhysicalPlan, PlanError>)
    requires
        lowers(input, child),
    ensures
        match window_failure(window_spec, window_functions@) {
            Some(e) => r == Err::<PhysicalPlan, PlanError>(e),
            None => r matches Ok(p) && lowers_window(
                LogicalPlan::Window {
                    input: Box::new(input),
                    window_functions,
                    aliases,
                    window_spec,
                    schema,
                    stats,
                },
                p,
            ),
        },
{
    reveal(lowers);
    reveal(lowers_window);
    let WindowSpec { partition_by, order_by, descending, frame, min_periods } = window_spec;
    let partitioned = partition_by.len() > 0;
    let ordered = order_by.len() > 0;
    if partitioned && !ordered && frame.is_none() {
        match take_aggregates(window_functions) {
            Ok(aggregations) => Ok(
                PhysicalPlan::WindowPartitionOnly {
                    input: Box::new(child),
                    partition_by,
                    schema,
                    stats,
                    aggregations,
                    aliases,
                },
            ),
            Err(i) => Err(PlanError::NonAggregateWindowFunction(i)),
        }
    } else if partitioned && ordered && frame.is_none() {
        Ok(
            PhysicalPlan::WindowPartitionAndOrderBy {
                input: Box::new(child),
                partition_by,
                order_by,
                descending,
                schema,
                stats,
                functions: window_functions,
                aliases,
            },
        )
    } else if partitioned && ordered {
        match take_aggregates(window_functions) {
            Ok(aggregations) => Ok(
                PhysicalPlan::WindowPartitionAndDynamicFrame {
                    input: Box::new(child),
                    partition_by,
                    order_by,
                    descending,
                    frame: frame.unwrap(),
                    min_periods,
                    schema,
                    stats,
                    aggregations,
                    aliases,
                },
            ),
            Err(i) => Err(PlanError::NonAggregateWindowFunction(i)),
        }
    } else if !partitioned && ordered && frame.is_none() {
        Ok(
            PhysicalPlan::WindowOrderByOnly {
                input: Box::new(child),
                order_by,
                descending,
                schema,
                stats,
                functions: window_functions,
                aliases,
            },
        )
    } else if !partitioned && ordered {
        Err(PlanError::OrderByWithFrame)
    } else {
        Err(PlanError::InvalidWindow)
    }
}

fn lower_join(
    left_child: PhysicalPlan,
    right_child: PhysicalPlan,
    on: JoinPredicate,
    join_type: JoinType,
    join_strategy: Option<JoinStrategy>,
    schema: Schema,
    stats: StatsState,
    Ghost(left): Ghost<LogicalPlan>,
    Ghost(right): Ghost<LogicalPlan>,
) -> (r: Result<PhysicalPlan, PlanError>)
    requires
        lowers(left, left_child),
        lowers(right, right_child),
    ensures
        r is Ok <==> on.remaining@.len() == 0,
        r matches Ok(p) ==> lowers(
            LogicalPlan::Join {
                left: Box::new(left),
                right: Box::new(right),
                on,
                join_type,
                join_strategy,
                schema,
                stats,
            },
            p,
        ),
        r matches Err(e) ==> e == PlanError::NonEqualityJoin,
{
    reveal(lowers);
    reveal(lowers_window);
    let inner = match join_type {
        JoinType::Inner => true,
        _ => false,
    };
    let JoinPredicate { left_on, right_on, null_equals_nulls, remaining } = on;
    if remaining.len() > 0 {
        return Err(PlanError::NonEqualityJoin);
    }
    if left_on.len() == 0 && right_on.len() == 0 && inner {
        Ok(
            PhysicalPlan::CrossJoin {
                left: Box::new(left_child),
                right: Box::new(right_child),
                schema,
                stats,
            },
        )
    } else {
        Ok(
            PhysicalPlan::HashJoin {
                left: Box::new(left_child),
                right: Box::new(right_child),
                left_on,
                right_on,
                null_equals_nulls: Some(null_equals_nulls),
                join_type,
                schema,
                stats,
            },
        )
    }
}

fn lower_concat(
    first: PhysicalPlan,
    second: PhysicalPlan,
    stats: StatsState,
    Ghost(input): Ghost<LogicalPlan>,
    Ghost(other): Ghost<LogicalPlan>,
) -> (p: PhysicalPlan)
    requires
        lowers(input, first),
        lowers(other, second),
    ensures
        lowers(
            LogicalPlan::Concat { input: Box::new(input), other: Box::new(other), stats },
            p,
        ),
{
    reveal(lowers);
    reveal(lowers_window);
    PhysicalPlan::Concat { input: Box::new(first), other: Box::new(second), stats }
}

/// How the scan tasks of a file-backed source are come by.
#[derive(Debug)]
pub enum Listing<'a> {
    /// They are listed already.
    Listed(Vec<ScanTask>),
    /// The scan operator of this number is to be asked, under these
    /// pushdowns.
    Ask(u64, &'a Pushdowns),
}

/// How the scan tasks of a file-backed source are come by: they are taken
/// as listed, or its own operator is to be asked under the pushdowns of the
/// source itself.
pub fn scan_request<'a>(scan_state: ScanState, pushdowns: &'a Pushdowns) -> (r: Listing<'a>)
    ensures
        match scan_state {
            ScanState::Operator(operator) => r == Listing::Ask(operator, pushdowns),
            ScanState::Tasks(tasks) => r == Listing::Listed(tasks),
        },
{
    match scan_state {
        ScanState::Operator(operator) => Listing::Ask(operator, pushdowns),
        ScanState::Tasks(tasks) => Listing::Listed(tasks),
    }
}

/// The node of a file-backed source, given what listing its scan tasks came
/// to: a scan failure with what the operator said where the listing failed,
/// an empty scan for an empty list, and else
/// a physical scan of the listed tasks under the pushdowns, the schema and
/// the statistics of the source.
pub fn lower_scan(
    listed: Result<Vec<ScanTask>, String>,
    pushdowns: Pushdowns,
    output_schema: Schema,
    stats: StatsState,
) -> (r: Result<PhysicalPlan, PlanError>)
    ensures
        match listed {
            Err(said) => r == Err::<PhysicalPlan, PlanError>(PlanError::ScanFailed(said)),
            Ok(tasks) => if tasks@.len() == 0 {
                r == Ok::<PhysicalPlan, PlanError>(PhysicalPlan::EmptyScan { schema: output_schema })
            } else {
                r == Ok::<PhysicalPlan, PlanError>(
                    PhysicalPlan::PhysicalScan {
                        scan_tasks: tasks,
                        pushdowns,
                        schema: output_schema,
                        stats,
                    },
                )
            },
        },
{
    match listed {
        Err(said) => Err(PlanError::ScanFailed(said)),
        Ok(scan_tasks) => {
            if scan_tasks.len() == 0 {
                Ok(PhysicalPlan::EmptyScan { schema: output_schema })
            } else {
                Ok(PhysicalPlan::PhysicalScan { scan_tasks, pushdowns, schema: output_schema, stats })
            }
        },
    }
}

/// Lowers a source. The scan tasks of a file-backed source are taken as
/// listed, or asked of its scan operator as `scan_request` says; what the
/// listing came to decides the node as `lower_scan` says.
fn lower_source<R: ScanOperators>(
    info: SourceInfo,
    output_schema: Schema,
    stats: StatsState,
    operators: &R,
) -> (r: Result<PhysicalPlan, PlanError>)
    ensures
        outcome(LogicalPlan::Source { info, output_schema, stats }, r),
{
    reveal(failure);
    reveal(lowers);
    reveal(operator_met_first);
    match info {
        SourceInfo::InMemory(mem) => Ok(
            PhysicalPlan::InMemoryScan { info: mem, schema: output_schema, stats },
        ),
        SourceInfo::Physical { scan_state, pushdowns } => {
            let listed = match scan_request(scan_state, &pushdowns) {
                Listing::Listed(scan_tasks) => Ok(scan_tasks),
                Listing::Ask(operator, asked) => operators.to_scan_tasks(operator, asked),
            };
            lower_scan(listed, pushdowns, output_schema, stats)
        },
    }
}

fn translate_filter<R: ScanOperators>(
    input: LogicalPlan,
    predicate: Expr,
    stats: StatsState,
    operators: &R,
) -> (r: Result<PhysicalPlan, PlanError>)
    ensures
        outcome(LogicalPlan::Filter { input: Box::new(input), predicate, stats }, r),
    decreases input, 1int,
{
    reveal(failure);
    reveal(lowers);
    reveal(operator_met_first);
    match translate(input, operators) {
        Ok(child) => Ok(PhysicalPlan::Filter { input: Box::new(child), predicate, stats }),
        Err(e) => Err(e),
    }
}

fn translate_limit<R: ScanOperators>(
    input: LogicalPlan,
    limit: u64,
    stats: StatsState,
    operators: &R,
) -> (r: Result<PhysicalPlan, PlanError>)
    ensures
        outcome(LogicalPlan::Limit { input: Box::new(input), limit, stats }, r),
    decreases input, 1int,
{
    reveal(failure);
    reveal(lowers);
    reveal(operator_met_first);
    match translate(input, operators) {
        Ok(child) => Ok(PhysicalPlan::Limit { input: Box::new(child), limit, stats }),
        Err(e) => Err(e),
    }
}

fn translate_project<R: ScanOperators>(
    input: LogicalPlan,
    projection: Vec<Expr>,
    schema: Schema,
    stats: StatsState,
    operators: &R,
) -> (r: Result<PhysicalPlan, PlanError>)
    ensures
        outcome(LogicalPlan::Project { input: Box::new(input), projection, schema, stats }, r),
    decreases input, 1int,
{
    reveal(failure);
    reveal(lowers);
    reveal(operator_met_first);
    match translate(input, operators) {
        Ok(child) => Ok(PhysicalPlan::Project { input: Box::new(child), projection, schema, stats }),
        Err(e) => Err(e),
    }
}

fn translate_actor_pool_project<R: ScanOperators>(
    input: LogicalPlan,
    projection: Vec<Expr>,
    schema: Schema,
    stats: StatsState,
    operators: &R,
) -> (r: Result<PhysicalPlan, PlanError>)
    ensures
        outcome(LogicalPlan::ActorPoolProject { input: Box::new(input), projection, schema, stats }, r),
    decreases input, 1int,
{
    reveal(failure);
    reveal(lowers);
    reveal(operator_met_first);
    match translate(input, operators) {
        Ok(child) => Ok(PhysicalPlan::ActorPoolProject { input: Box::new(child), projection, schema, stats }),
        Err(e) => Err(e),
    }
}

fn translate_sample<R: ScanOperators>(
    input: LogicalPlan,
    params: SampleParams,
    stats: StatsState,
    operators: &R,
) -> (r: Result<PhysicalPlan, PlanError>)
    ensures
        outcome(LogicalPlan::Sample { input: Box::new(input), params, stats }, r),
    decreases input, 1int,
{
    reveal(failure);
    reveal(lowers);
    reveal(operator_met_first);
    match translate(input, operators) {
        Ok(child) => Ok(PhysicalPlan::Sample { input: Box::new(child), params, stats }),
        Err(e) => Err(e),
    }
}

fn translate_unpivot<R: ScanOperators>(
    input: LogicalPlan,
    params: UnpivotParams,
    schema: Schema,
    stats: StatsState,
    operators: &R,
) -> (r: Result<PhysicalPlan, PlanError>)
    ensures
        outcome(LogicalPlan::Unpivot { input: Box::new(input), params, schema, stats }, r),
    decreases input, 1int,
{
    reveal(failure);
    reveal(lowers);
    reveal(operator_met_first);
    match translate(input, operators) {
        Ok(child) => Ok(PhysicalPlan::Unpivot { input: Box::new(child), params, schema, stats }),
        Err(e) => Err(e),
    }
}

fn translate_pivot<R: ScanOperators>(
    input: LogicalPlan,
    params: PivotParams,
    schema: Schema,
    stats: StatsState,
    operators: &R,
) -> (r: Result<PhysicalPlan, PlanError>)
    ensures
        outcome(LogicalPlan::Pivot { input: Box::new(input), params, schema, stats }, r),
    decreases input, 1int,
{
    reveal(failure);
    reveal(lowers);
    reveal(operator_met_first);
    match translate(input, operators) {
        Ok(child) => Ok(PhysicalPlan::Pivot { input: Box::new(child), params, schema, stats }),
        Err(e) => Err(e),
    }
}

fn translate_sort<R: ScanOperators>(
    input: LogicalPlan,
    keys: SortKeys,
    stats: StatsState,
    operators: &R,
) -> (r: Result<PhysicalPlan, PlanError>)
    ensures
        outcome(LogicalPlan::Sort { input: Box::new(input), keys, stats }, r),
    decreases input, 1int,
{
    reveal(failure);
    reveal(lowers);
    reveal(operator_met_first);
    match translate(input, operators) {
        Ok(child) => Ok(PhysicalPlan::Sort { input: Box::new(child), keys, stats }),
        Err(e) => Err(e),
    }
}

fn translate_top_n<R: ScanOperators>(
    input: LogicalPlan,
    keys: SortKeys,
    limit: u64,
    stats: StatsState,
    operators: &R,
) -> (r: Result<PhysicalPlan, PlanError>)
    ensures
        outcome(LogicalPlan::TopN { input: Box::new(input), keys, limit, stats }, r),
    decreases input, 1int,
{
    reveal(failure);
    reveal(lowers);
    reveal(operator_met_first);
    match translate(input, operators) {
        Ok(child) => Ok(PhysicalPlan::TopN { input: Box::new(child), keys, limit, stats }),
        Err(e) => Err(e),
    }
}

fn translate_monotonic_id<R: ScanOperators>(
    input: LogicalPlan,
    column_name: String,
    schema: Schema,
    stats: StatsState,
    operators: &R,
) -> (r: Result<PhysicalPlan, PlanError>)
    ensures
        outcome(LogicalPlan::MonotonicallyIncreasingId { input: Box::new(input), column_name, schema, stats }, r),
    decreases input, 1int,
{
    reveal(failure);
    reveal(lowers);
    reveal(operator_met_first);
    match translate(input, operators) {
        Ok(child) => Ok(PhysicalPlan::MonotonicallyIncreasingId { input: Box::new(child), column_name, schema, stats }),
        Err(e) => Err(e),
    }
}

fn translate_explode<R: ScanOperators>(
    input: LogicalPlan,
    to_explode: Vec<Expr>,
    schema: Schema,
    stats: StatsState,
    operators: &R,
) -> (r: Result<PhysicalPlan, PlanError>)
    ensures
        outcome(LogicalPlan::Explode { input: Box::new(input), to_explode, schema, stats }, r),
    decreases input, 1int,
{
    reveal(failure);
    reveal(lowers);
    reveal(operator_met_first);
    match translate(input, operators) {
        Ok(child) => Ok(PhysicalPlan::Explode { input: Box::new(child), to_explode, schema, stats }),
        Err(e) => Err(e),
    }
}

fn translate_aggregate<R: ScanOperators>(
    input: LogicalPlan,
    aggregations: Vec<AggExpr>,
    groupby: Vec<Expr>,
    schema: Schema,
    stats: StatsState,
    operators: &R,
) -> (r: Result<PhysicalPlan, PlanError>)
    ensures
        outcome(
            LogicalPlan::Aggregate { input: Box::new(input), aggregations, groupby, schema, stats },
            r,
        ),
    decreases input, 1int,
{
    reveal(failure);
    reveal(lowers);
    reveal(operator_met_first);
    match translate(input, operators) {
        Ok(child) => {
            if groupby.len() == 0 {
                Ok(
                    PhysicalPlan::UnGroupedAggregate {
                        input: Box::new(child),
                        aggregations,
                        schema,
                        stats,
                    },
                )
            } else {
                Ok(
                    PhysicalPlan::HashAggregate {
                        input: Box::new(child),
                        aggregations,
                        group_by: groupby,
                        schema,
                        stats,
                    },
                )
            }
        },
        Err(e) => Err(e),
    }
}

fn translate_distinct<R: ScanOperators>(input: LogicalPlan, stats: StatsState, operators: &R) -> (r:
    Result<PhysicalPlan, PlanError>)
    ensures
        outcome(LogicalPlan::Distinct { input: Box::new(input), stats }, r),
    decreases input, 1int,
{
    reveal(failure);
    reveal(lowers);
    reveal(operator_met_first);
    match translate(input, operators) {
        Ok(child) => {
            let group_by = column_refs(child.schema());
            let schema = child.schema().duplicate();
            Ok(
                PhysicalPlan::HashAggregate {
                    input: Box::new(child),
                    aggregations: Vec::new(),
                    group_by,
                    schema,
                    stats,
                },
            )
        },
        Err(e) => Err(e),
    }
}

fn translate_sink<R: ScanOperators>(
    input: LogicalPlan,
    schema: Schema,
    sink_info: SinkInfo,
    stats: StatsState,
    operators: &R,
) -> (r: Result<PhysicalPlan, PlanError>)
    ensures
        outcome(LogicalPlan::Sink { input: Box::new(input), schema, sink_info, stats }, r),
    decreases input, 1int,
{
    reveal(failure);
    reveal(lowers);
    reveal(operator_met_first);
    match translate(input, operators) {
        Ok(child) => {
            let data_schema = child.schema().duplicate();
            let input = Box::new(child);
            Ok(
                match sink_info {
                    SinkInfo::OutputFile(info) => PhysicalPlan::PhysicalWrite {
                        input,
                        data_schema,
                        file_schema: schema,
                        file_info: info,
                        stats,
                    },
                    SinkInfo::Catalog(catalog) => PhysicalPlan::CatalogWrite {
                        input,
                        catalog_type: catalog,
                        data_schema,
                        file_schema: schema,
                        stats,
                    },
                    SinkInfo::Lance(lance) => PhysicalPlan::LanceWrite {
                        input,
                        lance_info: lance,
                        data_schema,
                        file_schema: schema,
                        stats,
                    },
                    SinkInfo::DataSink(sink) => PhysicalPlan::DataSink {
                        input,
                        data_sink_info: sink,
                        file_schema: schema,
                        stats,
                    },
                },
            )
        },
        Err(e) => Err(e),
    }
}

/// A repartition is not carried out by this engine: its input is lowered in
/// its place.
fn translate_repartition<R: ScanOperators>(
    input: LogicalPlan,
    num_partitions: Option<usize>,
    operators: &R,
) -> (r: Result<PhysicalPlan, PlanError>)
    ensures
        outcome(LogicalPlan::Repartition { input: Box::new(input), num_partitions }, r),
    decreases input, 1int,
{
    reveal(failure);
    reveal(lowers);
    reveal(operator_met_first);
    translate(input, operators)
}

fn translate_window<R: ScanOperators>(
    input: LogicalPlan,
    window_functions: Vec<WindowExpr>,
    aliases: Vec<String>,
    window_spec: WindowSpec,
    schema: Schema,
    stats: StatsState,
    operators: &R,
) -> (r: Result<PhysicalPlan, PlanError>)
    ensures
        outcome(
            LogicalPlan::Window {
                input: Box::new(input),
                window_functions,
                aliases,
                window_spec,
                schema,
                stats,
            },
            r,
        ),
    decreases input, 1int,
{
    reveal(failure);
    reveal(lowers);
    reveal(lowers_window);
    reveal(operator_met_first);
    match translate(input, operators) {
        Ok(child) => lower_window(
            child,
            window_functions,
            aliases,
            window_spec,
            schema,
            stats,
            Ghost(input),
        ),
        Err(e) => Err(e),
    }
}

/// Lowers an optimized logical plan to the physical plan that executes it.
///
/// The plan is lowered by structural recursion, children before their
/// parent. Scan tasks that are still to be listed are asked of `operators`.
/// The result is a plan that `lowers` relates to the input, or a failure:
/// the one that `failure` names, or that of a scan operator.
pub fn translate<R: ScanOperators>(plan: LogicalPlan, operators: &R) -> (r: Result<
    PhysicalPlan,
    PlanError,
>)
    ensures
        outcome(plan, r),
    decreases plan, 0int,
{
    match plan {
        LogicalPlan::Source { info, output_schema, stats } => lower_source(
            info,
            output_schema,
            stats,
            operators,
        ),
        LogicalPlan::Filter { input, predicate, stats } => translate_filter(
            *input,
            predicate,
            stats,
            operators,
        ),
        LogicalPlan::Limit { input, limit, stats } => translate_limit(
            *input,
            limit,
            stats,
            operators,
        ),
        LogicalPlan::Project { input, projection, schema, stats } => translate_project(
            *input,
            projection,
            schema,
            stats,
            operators,
        ),
        LogicalPlan::ActorPoolProject {
            input,
            projection,
            schema,
            stats,
        } => translate_actor_pool_project(*input, projection, schema, stats, operators),
        LogicalPlan::Sample { input, params, stats } => translate_sample(
            *input,
            params,
            stats,
            operators,
        ),
        LogicalPlan::Aggregate {
            input,
            aggregations,
            groupby,
            schema,
            stats,
        } => translate_aggregate(*input, aggregations, groupby, schema, stats, operators),
        LogicalPlan::Window {
            input,
            window_functions,
            aliases,
            window_spec,
            schema,
            stats,
        } => translate_window(
            *input,
            window_functions,
            aliases,
            window_spec,
            schema,
            stats,
            operators,
        ),
        LogicalPlan::Unpivot { input, params, schema, stats } => translate_unpivot(
            *input,
            params,
            schema,
            stats,
            operators,
        ),
        LogicalPlan::Pivot { input, params, schema, stats } => translate_pivot(
            *input,
            params,
            schema,
            stats,
            operators,
        ),
        LogicalPlan::Sort { input, keys, stats } => translate_sort(*input, keys, stats, operators),
        LogicalPlan::TopN { input, keys, limit, stats } => translate_top_n(
            *input,
            keys,
            limit,
            stats,
            operators,
        ),
        LogicalPlan::Join { left, right, on, join_type, join_strategy, schema, stats } => {
            proof {
                reveal(failure);
                reveal(operator_met_first);
            }
            match join_strategy {
                Some(JoinStrategy::Hash) => {},
                None => {},
                Some(_) => {
                    return Err(PlanError::NonHashJoin);
                },
            }
            let ghost below_left = *left;
            let ghost below_right = *right;
            let left_child = match translate(*left, operators) {
                Ok(child) => child,
                Err(e) => {
                    return Err(e);
                },
            };
            let right_child = match translate(*right, operators) {
                Ok(child) => child,
                Err(e) => {
                    return Err(e);
                },
            };
            lower_join(
                left_child,
                right_child,
                on,
                join_type,
                join_strategy,
                schema,
                stats,
                Ghost(below_left),
                Ghost(below_right),
            )
        },
        LogicalPlan::Distinct { input, stats } => translate_distinct(*input, stats, operators),
        LogicalPlan::Concat { input, other, stats } => {
            proof {
                reveal(failure);
                reveal(operator_met_first);
            }
            let ghost below = *input;
            let ghost beside = *other;
            let first = match translate(*input, operators) {
                Ok(child) => child,
                Err(e) => {
                    return Err(e);
                },
            };
            match translate(*other, operators) {
                Ok(second) => Ok(lower_concat(first, second, stats, Ghost(below), Ghost(beside))),
                Err(e) => Err(e),
            }
        },
        LogicalPlan::Repartition { input, num_partitions } => translate_repartition(
            *input,
            num_partitions,
            operators,
        ),
        LogicalPlan::MonotonicallyIncreasingId {
            input,
            column_name,
            schema,
            stats,
        } => translate_monotonic_id(*input, column_name, schema, stats, operators),
        LogicalPlan::Sink { input, schema, sink_info, stats } => translate_sink(
            *input,
            schema,
            sink_info,
            stats,
            operators,
        ),
        LogicalPlan::Explode { input, to_explode, schema, stats } => translate_explode(
            *input,
            to_explode,
            schema,
            stats,
            operators,
        ),
        LogicalPlan::Intersect { .. } => {
            proof {
                reveal(failure);
            }
            Err(PlanError::UnexpectedIntersect)
        },
        LogicalPlan::Union { .. } => {
            proof {
                reveal(failure);
            }
            Err(PlanError::UnexpectedUnion)
        },
        LogicalPlan::SubqueryAlias { .. } => {
            proof {
                reveal(failure);
            }
            Err(PlanError::UnexpectedAlias)
        },
    }
}

/// Lowering is total. A plan with a failure never lowers to a plan. A plan
/// without one lowers to a plan unless a scan operator fails. Every failure
/// other than that of a scan operator is the one that `failure` names; a
/// scan failure comes only where an operator is asked first.
pub proof fn lemma_translation_total(plan: LogicalPlan, r: Result<PhysicalPlan, PlanError>)
    requires
        outcome(plan, r),
    ensures
        failure(plan) is Some ==> r is Err,
        failure(plan) is None ==> r is Ok || (r is Err && r->Err_0 is ScanFailed),
        r is Err && !(r->Err_0 is ScanFailed) ==> failure(plan) == Some(r->Err_0),
        r is Err && r->Err_0 is ScanFailed ==> operator_met_first(plan),
        !operator_met_first(plan) ==> (r is Ok <==> failure(plan) is None),
{
    reveal(failure);
    lemma_no_scan_failure(plan);
}

/// The failure that `failure` names is never that of a scan operator.
pub proof fn lemma_no_scan_failure(plan: LogicalPlan)
    ensures
        failure(plan) matches Some(e) ==> !(e is ScanFailed),
    decreases plan,
{
    reveal(failure);
    match plan {
        LogicalPlan::Source { .. } => {},
        LogicalPlan::Filter { input, .. } => lemma_no_scan_failure(*input),
        LogicalPlan::Limit { input, .. } => lemma_no_scan_failure(*input),
        LogicalPlan::Project { input, .. } => lemma_no_scan_failure(*input),
        LogicalPlan::ActorPoolProject { input, .. } => lemma_no_scan_failure(*input),
        LogicalPlan::Sample { input, .. } => lemma_no_scan_failure(*input),
        LogicalPlan::Aggregate { input, .. } => lemma_no_scan_failure(*input),
        LogicalPlan::Window { input, .. } => lemma_no_scan_failure(*input),
        LogicalPlan::Unpivot { input, .. } => lemma_no_scan_failure(*input),
        LogicalPlan::Pivot { input, .. } => lemma_no_scan_failure(*input),
        LogicalPlan::Sort { input, .. } => lemma_no_scan_failure(*input),
        LogicalPlan::TopN { input, .. } => lemma_no_scan_failure(*input),
        LogicalPlan::Join { left, right, .. } => {
            lemma_no_scan_failure(*left);
            lemma_no_scan_failure(*right);
        },
        LogicalPlan::Distinct { input, .. } => lemma_no_scan_failure(*input),
        LogicalPlan::Concat { input, other, .. } => {
            lemma_no_scan_failure(*input);
            lemma_no_scan_failure(*other);
        },
        LogicalPlan::Repartition { input, .. } => lemma_no_scan_failure(*input),
        LogicalPlan::MonotonicallyIncreasingId { input, .. } => lemma_no_scan_failure(*input),
        LogicalPlan::Sink { input, .. } => lemma_no_scan_failure(*input),
        LogicalPlan::Explode { input, .. } => lemma_no_scan_failure(*input),
        LogicalPlan::Intersect { .. } => {},
        LogicalPlan::Union { .. } => {},
        LogicalPlan::SubqueryAlias { .. } => {},
    }
}

/// A window with partition keys, order keys and no frame becomes the
/// partition-and-order-by node over its lowered input, with the keys, the
/// directions, the schema, the statistics, the functions and the aliases of
/// the window; it fails only as its input fails. A window with neither
/// partition keys nor order keys never lowers, whether or not it has a
/// frame: it fails as its input fails, or with a value error.
pub proof fn lemma_window_dispatch(
    input: LogicalPlan,
    window_functions: Vec<WindowExpr>,
    aliases: Vec<String>,
    window_spec: WindowSpec,
    schema: Schema,
    stats: StatsState,
    r: Result<PhysicalPlan, PlanError>,
)
    requires
        outcome(
            LogicalPlan::Window {
                input: Box::new(input),
                window_functions,
                aliases,
                window_spec,
                schema,
                stats,
            },
            r,
        ),
    ensures
        window_spec.partition_by@.len() > 0 && window_spec.order_by@.len() > 0
            && window_spec.frame is None ==> match r {
            Ok(p) => p matches PhysicalPlan::WindowPartitionAndOrderBy {
                input: child,
                partition_by,
                order_by,
                descending,
                schema: ps,
                stats: pst,
                functions,
                aliases: pal,
            } && lowers(input, *child) && partition_by == window_spec.partition_by && order_by
                == window_spec.order_by && descending == window_spec.descending && ps == schema
                && pst == stats && functions == window_functions && pal == aliases,
            Err(e) => outcome(input, Err::<PhysicalPlan, PlanError>(e)),
        },
        window_spec.partition_by@.len() > 0 && window_spec.order_by@.len() > 0
            && window_spec.frame is None && failure(input) is None ==> r is Ok || (r is Err
            && r->Err_0 is ScanFailed),
        window_spec.partition_by@.len() == 0 && window_spec.order_by@.len() == 0 ==> r is Err && (
        r->Err_0 == PlanError::InvalidWindow || outcome(
            input,
            Err::<PhysicalPlan, PlanError>(r->Err_0),
        )),
        window_spec.partition_by@.len() == 0 && window_spec.order_by@.len() == 0 && failure(input)
            is None ==> r is Err && (r->Err_0.class() == ErrorKind::ValueError || r->Err_0
            is ScanFailed),
{
    reveal(failure);
    reveal(operator_met_first);
    reveal_with_fuel(lowers, 2);
    reveal_with_fuel(lowers_window, 2);
}

/// An inner join without equality keys on either side and without other
/// conjuncts becomes a cross join of its lowered sides, with the schema and
/// the statistics of the join, and never a hash join; it fails only as one
/// of its sides fails.
pub proof fn lemma_keyless_inner_join_is_cross_join(
    left: LogicalPlan,
    right: LogicalPlan,
    on: JoinPredicate,
    join_strategy: Option<JoinStrategy>,
    schema: Schema,
    stats: StatsState,
    r: Result<PhysicalPlan, PlanError>,
)
    requires
        join_strategy is None || join_strategy == Some(JoinStrategy::Hash),
        on.left_on@.len() == 0,
        on.right_on@.len() == 0,
        on.remaining@.len() == 0,
        outcome(
            LogicalPlan::Join {
                left: Box::new(left),
                right: Box::new(right),
                on,
                join_type: JoinType::Inner,
                join_strategy,
                schema,
                stats,
            },
            r,
        ),
    ensures
        match r {
            Ok(p) => p matches PhysicalPlan::CrossJoin { left: pl, right: pr, schema: ps, stats: pst }
                && lowers(left, *pl) && lowers(right, *pr) && ps == schema && pst == stats,
            Err(e) => outcome(left, Err::<PhysicalPlan, PlanError>(e)) || (failure(left) is None
                && outcome(right, Err::<PhysicalPlan, PlanError>(e))),
        },
        failure(left) is None && failure(right) is None ==> r is Ok || (r is Err && r->Err_0
            is ScanFailed),
{
    reveal(failure);
    reveal(operator_met_first);
    reveal(lowers);
}

} // verus!
