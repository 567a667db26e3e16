use local_engine::expr::{json_query, AggExpr, AggKind, Expr, WindowExpr};
use local_engine::plan::{
    CatalogType, DataSinkInfo, InMemoryInfo, JoinPredicate, JoinStrategy, JoinType, LanceInfo,
    LogicalPlan, OutputFileInfo, PhysicalPlan, Pushdowns, ScanState, ScanTask, SinkInfo,
    SortKeys, SourceInfo, StatsState, WindowBoundary, WindowFrame, WindowSpec,
};
use local_engine::schema::{DataType, Field, Schema};
use local_engine::translate::{lower_scan, scan_request, ErrorKind, Listing, PlanError, ScanOperators};

/// Lists as many tasks as the number of the operator says; operator 99 fails.
struct Lister;

impl ScanOperators for Lister {
    fn to_scan_tasks(
        &self,
        operator: u64,
        pushdowns: &Pushdowns,
    ) -> Result<Vec<ScanTask>, String> {
        if operator == 99 {
            return Err("no such directory".to_string());
        }
        Ok((0..operator)
            .map(|i| ScanTask {
                path: format!("listed-{i}"),
                schema: schema(&["a"]),
                num_rows: pushdowns.limit.map(|l| l as u64),
            })
            .collect())
    }
}

fn translate(plan: LogicalPlan) -> Result<PhysicalPlan, PlanError> {
    local_engine::translate::translate(plan, &Lister)
}

fn schema(names: &[&str]) -> Schema {
    Schema::new(
        names
            .iter()
            .map(|n| Field::new(n.to_string(), DataType::Int64))
            .collect(),
    )
}

fn col(name: &str) -> Expr {
    Expr::Column(name.to_string())
}

fn source(names: &[&str]) -> LogicalPlan {
    LogicalPlan::Source {
        info: SourceInfo::InMemory(InMemoryInfo {
            cache_key: "k".to_string(),
            num_partitions: 1,
            num_rows: 3,
            size_bytes: 24,
        }),
        output_schema: schema(names),
        stats: StatsState::NotMaterialized,
    }
}

fn file_source(tasks: usize) -> LogicalPlan {
    LogicalPlan::Source {
        info: SourceInfo::Physical {
            scan_state: ScanState::Tasks(
                (0..tasks)
                    .map(|i| ScanTask {
                        path: format!("part-{i}"),
                        schema: schema(&["a"]),
                        num_rows: Some(10),
                    })
                    .collect(),
            ),
            pushdowns: Pushdowns {
                filters: None,
                columns: None,
                limit: Some(5),
            },
        },
        output_schema: schema(&["a"]),
        stats: StatsState::Materialized {
            num_rows: 10,
            size_bytes: 80,
        },
    }
}

fn sum(name: &str) -> WindowExpr {
    WindowExpr::Agg(AggExpr {
        kind: AggKind::Sum,
        input: col(name),
    })
}

fn window(
    partition_by: Vec<Expr>,
    order_by: Vec<Expr>,
    frame: Option<WindowFrame>,
    functions: Vec<WindowExpr>,
) -> LogicalPlan {
    let descending = order_by.iter().map(|_| false).collect();
    let aliases = functions.iter().map(|_| "w".to_string()).collect();
    LogicalPlan::Window {
        input: Box::new(source(&["a", "b"])),
        window_functions: functions,
        aliases,
        window_spec: WindowSpec {
            partition_by,
            order_by,
            descending,
            frame,
            min_periods: 1,
        },
        schema: schema(&["a", "b", "w"]),
        stats: StatsState::NotMaterialized,
    }
}

fn frame() -> WindowFrame {
    WindowFrame {
        start: WindowBoundary::UnboundedPreceding,
        end: WindowBoundary::Offset(0),
    }
}

fn join(
    on: JoinPredicate,
    join_type: JoinType,
    join_strategy: Option<JoinStrategy>,
) -> LogicalPlan {
    LogicalPlan::Join {
        left: Box::new(source(&["a"])),
        right: Box::new(source(&["b"])),
        on,
        join_type,
        join_strategy,
        schema: schema(&["a", "b"]),
        stats: StatsState::NotMaterialized,
    }
}

fn keys(left: Vec<Expr>, right: Vec<Expr>, remaining: Vec<Expr>) -> JoinPredicate {
    let null_equals_nulls = left.iter().map(|_| false).collect();
    JoinPredicate {
        left_on: left,
        right_on: right,
        null_equals_nulls,
        remaining,
    }
}

#[test]
fn in_memory_source_becomes_in_memory_scan() {
    let p = translate(source(&["a"])).unwrap();
    assert!(matches!(p, PhysicalPlan::InMemoryScan { .. }));
    assert_eq!(p.schema().fields.len(), 1);
}

#[test]
fn file_source_without_tasks_becomes_empty_scan() {
    assert!(matches!(
        translate(file_source(0)).unwrap(),
        PhysicalPlan::EmptyScan { .. }
    ));
    match translate(file_source(2)).unwrap() {
        PhysicalPlan::PhysicalScan {
            scan_tasks,
            pushdowns,
            ..
        } => {
            assert_eq!(scan_tasks.len(), 2);
            assert_eq!(pushdowns.limit, Some(5));
        }
        other => panic!("unexpected plan {other:?}"),
    }
}

#[test]
fn unary_nodes_carry_their_parameters() {
    let plan = LogicalPlan::Limit {
        input: Box::new(LogicalPlan::Filter {
            input: Box::new(source(&["a"])),
            predicate: col("a"),
            stats: StatsState::NotMaterialized,
        }),
        limit: 7,
        stats: StatsState::NotMaterialized,
    };
    match translate(plan).unwrap() {
        PhysicalPlan::Limit { input, limit, .. } => {
            assert_eq!(limit, 7);
            match *input {
                PhysicalPlan::Filter { predicate, .. } => {
                    assert!(matches!(predicate, Expr::Column(n) if n == "a"))
                }
                other => panic!("unexpected plan {other:?}"),
            }
        }
        other => panic!("unexpected plan {other:?}"),
    }
    let sort = LogicalPlan::TopN {
        input: Box::new(source(&["a"])),
        keys: SortKeys {
            sort_by: vec![col("a")],
            descending: vec![true],
            nulls_first: vec![true],
        },
        limit: 3,
        stats: StatsState::NotMaterialized,
    };
    assert!(matches!(
        translate(sort).unwrap(),
        PhysicalPlan::TopN { limit: 3, .. }
    ));
}

#[test]
fn aggregate_without_keys_is_ungrouped() {
    let agg = |groupby: Vec<Expr>| LogicalPlan::Aggregate {
        input: Box::new(source(&["a", "b"])),
        aggregations: vec![AggExpr {
            kind: AggKind::Count,
            input: col("a"),
        }],
        groupby,
        schema: schema(&["a"]),
        stats: StatsState::NotMaterialized,
    };
    assert!(matches!(
        translate(agg(vec![])).unwrap(),
        PhysicalPlan::UnGroupedAggregate { .. }
    ));
    assert!(matches!(
        translate(agg(vec![col("b")])).unwrap(),
        PhysicalPlan::HashAggregate { .. }
    ));
}

#[test]
fn window_with_partition_and_order_keys_and_no_frame() {
    let plan = window(
        vec![col("a")],
        vec![col("b")],
        None,
        vec![WindowExpr::Rank, sum("b")],
    );
    match translate(plan).unwrap() {
        PhysicalPlan::WindowPartitionAndOrderBy {
            functions,
            descending,
            ..
        } => {
            assert_eq!(functions.len(), 2);
            assert_eq!(descending, vec![false]);
        }
        other => panic!("unexpected plan {other:?}"),
    }
}

#[test]
fn window_without_keys_is_a_value_error_with_or_without_frame() {
    for f in [None, Some(frame())] {
        let e = translate(window(vec![], vec![], f, vec![sum("b")])).unwrap_err();
        assert_eq!(e, PlanError::InvalidWindow);
        assert_eq!(e.kind(), ErrorKind::ValueError);
        assert_eq!(
            e.message(),
            "Window requires either partition by or order by"
        );
    }
    let e = translate(window(vec![col("a")], vec![], Some(frame()), vec![sum("b")])).unwrap_err();
    assert_eq!(e.kind(), ErrorKind::ValueError);
}

#[test]
fn window_specializations() {
    match translate(window(vec![col("a")], vec![], None, vec![sum("b")])).unwrap() {
        PhysicalPlan::WindowPartitionOnly { aggregations, .. } => {
            assert_eq!(aggregations.len(), 1);
            assert_eq!(aggregations[0].kind, AggKind::Sum);
        }
        other => panic!("unexpected plan {other:?}"),
    }
    match translate(window(
        vec![col("a")],
        vec![col("b")],
        Some(frame()),
        vec![sum("a"), sum("b")],
    ))
    .unwrap()
    {
        PhysicalPlan::WindowPartitionAndDynamicFrame {
            aggregations,
            frame: f,
            min_periods,
            ..
        } => {
            assert_eq!(aggregations.len(), 2);
            assert!(matches!(&aggregations[0].input, Expr::Column(n) if n == "a"));
            assert!(matches!(&aggregations[1].input, Expr::Column(n) if n == "b"));
            assert_eq!(f, frame());
            assert_eq!(min_periods, 1);
        }
        other => panic!("unexpected plan {other:?}"),
    }
    assert!(matches!(
        translate(window(vec![], vec![col("b")], None, vec![WindowExpr::RowNumber])).unwrap(),
        PhysicalPlan::WindowOrderByOnly { .. }
    ));
}

#[test]
fn window_errors() {
    let e = translate(window(vec![col("a")], vec![], None, vec![WindowExpr::Rank])).unwrap_err();
    assert_eq!(e, PlanError::NonAggregateWindowFunction(0));
    let e = translate(window(
        vec![col("a")],
        vec![],
        None,
        vec![sum("a"), WindowExpr::RowNumber, sum("b"), WindowExpr::Rank],
    ))
    .unwrap_err();
    assert_eq!(e, PlanError::NonAggregateWindowFunction(1));
    assert_eq!(e.kind(), ErrorKind::TypeError);
    let e = translate(window(
        vec![col("a")],
        vec![col("b")],
        Some(frame()),
        vec![sum("a"), WindowExpr::DenseRank],
    ))
    .unwrap_err();
    assert_eq!(e, PlanError::NonAggregateWindowFunction(1));
    let e = translate(window(vec![], vec![col("b")], Some(frame()), vec![sum("a")])).unwrap_err();
    assert_eq!(e, PlanError::OrderByWithFrame);
    assert_eq!(e.kind(), ErrorKind::NotImplemented);
}

#[test]
fn inner_join_without_keys_is_a_cross_join() {
    let p = translate(join(keys(vec![], vec![], vec![]), JoinType::Inner, None)).unwrap();
    assert!(matches!(p, PhysicalPlan::CrossJoin { .. }));
    let p = translate(join(
        keys(vec![], vec![], vec![]),
        JoinType::Left,
        Some(JoinStrategy::Hash),
    ))
    .unwrap();
    assert!(matches!(p, PhysicalPlan::HashJoin { .. }));
    match translate(join(
        keys(vec![col("a")], vec![col("b")], vec![]),
        JoinType::Inner,
        None,
    ))
    .unwrap()
    {
        PhysicalPlan::HashJoin {
            left_on,
            right_on,
            null_equals_nulls,
            join_type,
            ..
        } => {
            assert_eq!(left_on.len(), 1);
            assert_eq!(right_on.len(), 1);
            assert_eq!(null_equals_nulls, Some(vec![false]));
            assert_eq!(join_type, JoinType::Inner);
        }
        other => panic!("unexpected plan {other:?}"),
    }
}

#[test]
fn join_errors() {
    let e = translate(join(
        keys(vec![], vec![], vec![]),
        JoinType::Inner,
        Some(JoinStrategy::SortMerge),
    ))
    .unwrap_err();
    assert_eq!(e, PlanError::NonHashJoin);
    assert_eq!(e.kind(), ErrorKind::NotImplemented);
    let e = translate(join(
        keys(vec![col("a")], vec![col("b")], vec![col("a")]),
        JoinType::Inner,
        None,
    ))
    .unwrap_err();
    assert_eq!(e, PlanError::NonEqualityJoin);
}

#[test]
fn distinct_groups_by_every_column() {
    let plan = LogicalPlan::Distinct {
        input: Box::new(source(&["x", "y"])),
        stats: StatsState::NotMaterialized,
    };
    match translate(plan).unwrap() {
        PhysicalPlan::HashAggregate {
            aggregations,
            group_by,
            schema,
            ..
        } => {
            assert!(aggregations.is_empty());
            assert_eq!(group_by.len(), 2);
            assert!(matches!(&group_by[0], Expr::Column(n) if n == "x"));
            assert!(matches!(&group_by[1], Expr::Column(n) if n == "y"));
            assert_eq!(schema.fields.len(), 2);
            assert_eq!(schema.fields[1].name, "y");
        }
        other => panic!("unexpected plan {other:?}"),
    }
}

#[test]
fn repartition_is_dropped_and_concat_is_binary() {
    let plan = LogicalPlan::Repartition {
        input: Box::new(LogicalPlan::Concat {
            input: Box::new(source(&["a"])),
            other: Box::new(file_source(0)),
            stats: StatsState::NotMaterialized,
        }),
        num_partitions: Some(4),
    };
    match translate(plan).unwrap() {
        PhysicalPlan::Concat { input, other, .. } => {
            assert!(matches!(*input, PhysicalPlan::InMemoryScan { .. }));
            assert!(matches!(*other, PhysicalPlan::EmptyScan { .. }));
        }
        other => panic!("unexpected plan {other:?}"),
    }
}

#[test]
fn sinks_by_target() {
    let sink = |info: SinkInfo| LogicalPlan::Sink {
        input: Box::new(source(&["a", "b"])),
        schema: schema(&["path"]),
        sink_info: info,
        stats: StatsState::NotMaterialized,
    };
    match translate(sink(SinkInfo::OutputFile(OutputFileInfo {
        root_dir: "out".to_string(),
        partition_cols: None,
    })))
    .unwrap()
    {
        PhysicalPlan::PhysicalWrite {
            data_schema,
            file_schema,
            ..
        } => {
            assert_eq!(data_schema.fields.len(), 2);
            assert_eq!(file_schema.fields.len(), 1);
        }
        other => panic!("unexpected plan {other:?}"),
    }
    assert!(matches!(
        translate(sink(SinkInfo::Catalog(CatalogType::DeltaLake {
            path: "t".to_string(),
            version: 1
        })))
        .unwrap(),
        PhysicalPlan::CatalogWrite { .. }
    ));
    assert!(matches!(
        translate(sink(SinkInfo::Catalog(CatalogType::Iceberg {
            table_name: "t".to_string(),
            table_location: "l".to_string()
        })))
        .unwrap(),
        PhysicalPlan::CatalogWrite { .. }
    ));
    assert!(matches!(
        translate(sink(SinkInfo::Lance(LanceInfo {
            path: "p".to_string(),
            mode: "append".to_string()
        })))
        .unwrap(),
        PhysicalPlan::LanceWrite { .. }
    ));
    assert!(matches!(
        translate(sink(SinkInfo::DataSink(DataSinkInfo {
            name: "custom".to_string()
        })))
        .unwrap(),
        PhysicalPlan::DataSink { .. }
    ));
}

#[test]
fn leftovers_of_optimization_are_internal_errors() {
    let pair = || (Box::new(source(&["a"])), Box::new(source(&["a"])));
    let (lhs, rhs) = pair();
    let e = translate(LogicalPlan::Intersect {
        lhs,
        rhs,
        is_all: false,
    })
    .unwrap_err();
    assert_eq!(e, PlanError::UnexpectedIntersect);
    assert_eq!(e.kind(), ErrorKind::InternalError);
    let (lhs, rhs) = pair();
    let e = translate(LogicalPlan::Union {
        lhs,
        rhs,
        is_all: true,
    })
    .unwrap_err();
    assert_eq!(e, PlanError::UnexpectedUnion);
    let e = translate(LogicalPlan::Filter {
        input: Box::new(LogicalPlan::SubqueryAlias {
            input: Box::new(source(&["a"])),
            name: "t".to_string(),
        }),
        predicate: col("a"),
        stats: StatsState::NotMaterialized,
    })
    .unwrap_err();
    assert_eq!(e, PlanError::UnexpectedAlias);
    assert_eq!(e.message(), "Alias should already be optimized away");
}

#[test]
fn json_query_builds_a_function_call() {
    match json_query(col("data"), Expr::Literal(Some(1))) {
        Expr::ScalarFunction(name, args) => {
            assert_eq!(name, "json_query");
            assert_eq!(args.len(), 2);
            assert!(matches!(&args[0], Expr::Column(n) if n == "data"));
            assert!(matches!(&args[1], Expr::Literal(Some(1))));
        }
        other => panic!("unexpected expression {other:?}"),
    }
}

fn operator_source(operator: u64) -> LogicalPlan {
    LogicalPlan::Source {
        info: SourceInfo::Physical {
            scan_state: ScanState::Operator(operator),
            pushdowns: Pushdowns {
                filters: None,
                columns: None,
                limit: Some(7),
            },
        },
        output_schema: schema(&["a"]),
        stats: StatsState::NotMaterialized,
    }
}

#[test]
fn scan_tasks_are_listed_on_demand() {
    match translate(operator_source(3)).unwrap() {
        PhysicalPlan::PhysicalScan {
            scan_tasks,
            pushdowns,
            ..
        } => {
            assert_eq!(scan_tasks.len(), 3);
            assert_eq!(scan_tasks[2].path, "listed-2");
            // the operator saw the pushdowns of the source
            assert_eq!(scan_tasks[0].num_rows, Some(7));
            assert_eq!(pushdowns.limit, Some(7));
        }
        other => panic!("unexpected plan {other:?}"),
    }
    assert!(matches!(
        translate(operator_source(0)).unwrap(),
        PhysicalPlan::EmptyScan { .. }
    ));
}

#[test]
fn failure_of_a_scan_operator_ends_the_lowering() {
    let plan = LogicalPlan::Limit {
        input: Box::new(operator_source(99)),
        limit: 1,
        stats: StatsState::NotMaterialized,
    };
    let e = translate(plan).unwrap_err();
    assert_eq!(e, PlanError::ScanFailed("no such directory".to_string()));
    assert_eq!(e.kind(), ErrorKind::ComputeError);
    assert_eq!(e.message(), "no such directory");
}

fn pushdowns(limit: usize) -> Pushdowns {
    Pushdowns {
        filters: None,
        columns: None,
        limit: Some(limit),
    }
}

#[test]
fn the_operator_is_asked_with_the_number_and_the_pushdowns_of_the_source() {
    let p = pushdowns(4);
    match scan_request(ScanState::Operator(17), &p) {
        Listing::Ask(operator, asked) => {
            assert_eq!(operator, 17);
            assert_eq!(asked.limit, Some(4));
        }
        other => panic!("unexpected listing {other:?}"),
    }
    let task = ScanTask {
        path: "t".to_string(),
        schema: schema(&["a"]),
        num_rows: None,
    };
    match scan_request(ScanState::Tasks(vec![task]), &p) {
        Listing::Listed(tasks) => assert_eq!(tasks[0].path, "t"),
        other => panic!("unexpected listing {other:?}"),
    }
}

#[test]
fn the_listing_decides_the_node_of_a_source() {
    let stats = StatsState::Materialized {
        num_rows: 1,
        size_bytes: 8,
    };
    let e = lower_scan(Err("gone".to_string()), pushdowns(1), schema(&["a"]), stats).unwrap_err();
    assert_eq!(e, PlanError::ScanFailed("gone".to_string()));
    match lower_scan(Ok(vec![]), pushdowns(1), schema(&["a", "b"]), stats).unwrap() {
        PhysicalPlan::EmptyScan { schema } => assert_eq!(schema.fields.len(), 2),
        other => panic!("unexpected plan {other:?}"),
    }
    let task = ScanTask {
        path: "t".to_string(),
        schema: schema(&["a"]),
        num_rows: Some(3),
    };
    match lower_scan(Ok(vec![task]), pushdowns(9), schema(&["a"]), stats).unwrap() {
        PhysicalPlan::PhysicalScan {
            scan_tasks,
            pushdowns,
            schema,
            stats: s,
        } => {
            assert_eq!(scan_tasks.len(), 1);
            assert_eq!(scan_tasks[0].num_rows, Some(3));
            assert_eq!(pushdowns.limit, Some(9));
            assert_eq!(schema.fields[0].name, "a");
            assert_eq!(s, stats);
        }
        other => panic!("unexpected plan {other:?}"),
    }
}

#[test]
fn a_failing_node_met_before_an_operator_decides_the_failure() {
    // the join refuses its strategy before any side is lowered
    let plan = LogicalPlan::Join {
        left: Box::new(operator_source(99)),
        right: Box::new(operator_source(99)),
        on: keys(vec![], vec![], vec![]),
        join_type: JoinType::Inner,
        join_strategy: Some(JoinStrategy::SortMerge),
        schema: schema(&["a"]),
        stats: StatsState::NotMaterialized,
    };
    assert_eq!(translate(plan).unwrap_err(), PlanError::NonHashJoin);
    // the left side fails before the operator of the right side is asked
    let plan = LogicalPlan::Concat {
        input: Box::new(LogicalPlan::SubqueryAlias {
            input: Box::new(source(&["a"])),
            name: "t".to_string(),
        }),
        other: Box::new(operator_source(99)),
        stats: StatsState::NotMaterialized,
    };
    assert_eq!(translate(plan).unwrap_err(), PlanError::UnexpectedAlias);
}
