use local_engine::container::{ColumnRange, MicroPartition, TableState, TableStatistics};
use local_engine::eval::{bind, to_truth_value, TruthValue};
use local_engine::expr::{BinaryOp, Expr};
use local_engine::ops::{infer_schema, ContainerError};
use local_engine::plan::ScanTask;
use local_engine::schema::{DataType, Field, Schema};
use local_engine::table::Table;

fn schema() -> Schema {
    Schema::new(vec![
        Field::new("a".to_string(), DataType::Int64),
        Field::new("b".to_string(), DataType::Int64),
    ])
}

fn col(name: &str) -> Expr {
    Expr::Column(name.to_string())
}

fn lit(v: i64) -> Expr {
    Expr::Literal(Some(v))
}

fn binary(op: BinaryOp, l: Expr, r: Expr) -> Expr {
    Expr::Binary(op, Box::new(l), Box::new(r))
}

fn stats(a: (i64, i64), b: (i64, i64)) -> TableStatistics {
    TableStatistics {
        columns: vec![
            ColumnRange::Loaded {
                lower: a.0,
                upper: a.1,
            },
            ColumnRange::Loaded {
                lower: b.0,
                upper: b.1,
            },
        ],
    }
}

fn loaded(statistics: Option<TableStatistics>) -> MicroPartition {
    let rows = vec![
        vec![Some(1), Some(10)],
        vec![Some(2), None],
        vec![Some(3), Some(30)],
    ];
    MicroPartition::new_loaded(
        schema(),
        vec![
            Table {
                schema: schema(),
                rows,
            },
            Table {
                schema: schema(),
                rows: vec![vec![None, Some(5)], vec![Some(3), Some(7)]],
            },
        ],
        statistics,
    )
}

fn unloaded() -> MicroPartition {
    MicroPartition::new_unloaded(
        schema(),
        ScanTask {
            path: "file".to_string(),
            schema: schema(),
            num_rows: None,
        },
        stats((1, 3), (5, 30)),
    )
}

fn tables(mp: MicroPartition) -> Vec<Table> {
    match mp.state {
        TableState::Loaded(t) => t,
        TableState::Unloaded(_) => panic!("unread"),
    }
}

#[test]
fn filter_without_predicates_gives_an_empty_container() {
    let out = loaded(None).filter(&vec![]).unwrap();
    assert_eq!(out.schema.fields.len(), 2);
    assert_eq!(out.schema.fields[0].name, "a");
    let t = tables(out);
    assert_eq!(t.iter().map(|t| t.rows.len()).sum::<usize>(), 0);
    let out = unloaded().filter(&vec![]).unwrap();
    assert!(tables(out).is_empty());
}

#[test]
fn filter_keeps_the_rows_on_which_every_predicate_holds() {
    let mp = loaded(Some(stats((1, 3), (5, 30))));
    let out = mp
        .filter(&vec![
            binary(BinaryOp::Gt, col("a"), lit(1)),
            binary(BinaryOp::Lt, col("b"), lit(30)),
        ])
        .unwrap();
    assert_eq!(
        out.statistics.as_ref().unwrap().columns,
        stats((1, 3), (5, 30)).columns
    );
    let t = tables(out);
    assert_eq!(t.len(), 2);
    assert!(t[0].rows.is_empty());
    assert_eq!(t[1].rows, vec![vec![Some(3), Some(7)]]);
}

#[test]
fn statistics_that_prove_a_predicate_false_spare_the_rows() {
    let p = vec![binary(BinaryOp::Gt, col("a"), lit(3))];
    // the rows of an unread container are never asked for
    let out = unloaded().filter(&p).unwrap();
    assert_eq!(out.schema.fields.len(), 2);
    assert!(tables(out).is_empty());
    let out = loaded(Some(stats((1, 3), (5, 30)))).filter(&p).unwrap();
    assert!(tables(out).is_empty());
    // without the proof the rows are needed
    let q = vec![binary(BinaryOp::Gt, col("a"), lit(2))];
    assert_eq!(
        unloaded().filter(&q).unwrap_err(),
        ContainerError::NotLoaded
    );
    let t = tables(loaded(None).filter(&p).unwrap());
    assert_eq!(t.len(), 2);
    assert!(t.iter().all(|t| t.rows.is_empty()));
}

#[test]
fn filter_rejects_predicates_that_do_not_resolve() {
    let e = loaded(None)
        .filter(&vec![binary(BinaryOp::Eq, col("zz"), lit(1))])
        .unwrap_err();
    assert_eq!(e, ContainerError::TypeError);
    let e = unloaded()
        .filter(&vec![Expr::ScalarFunction("f".to_string(), vec![col("a")])])
        .unwrap_err();
    assert_eq!(e, ContainerError::TypeError);
}

#[test]
fn ranges_of_expressions() {
    let s = schema();
    let st = stats((1, 3), (5, 30)).columns;
    let truth = |e: Expr| to_truth_value(bind(&e, &s).unwrap().eval_stats(&st));
    assert_eq!(truth(binary(BinaryOp::Lt, col("a"), col("b"))), TruthValue::True);
    assert_eq!(truth(binary(BinaryOp::Eq, col("a"), col("b"))), TruthValue::False);
    assert_eq!(truth(binary(BinaryOp::Eq, col("a"), lit(2))), TruthValue::Maybe);
    assert_eq!(
        truth(binary(
            BinaryOp::And,
            binary(BinaryOp::Lt, col("a"), lit(9)),
            binary(BinaryOp::Gt, col("a"), lit(9))
        )),
        TruthValue::False
    );
    assert_eq!(
        truth(binary(BinaryOp::Plus, col("a"), col("b"))),
        TruthValue::Maybe
    );
}

#[test]
fn duplicate_output_names_are_a_value_error_before_any_row_is_read() {
    let exprs = vec![
        col("a"),
        Expr::Alias(Box::new(col("b")), "a".to_string()),
    ];
    assert_eq!(
        unloaded().eval_expression_list(&exprs).unwrap_err(),
        ContainerError::ValueError
    );
    assert_eq!(
        loaded(None).eval_expression_list(&exprs).unwrap_err(),
        ContainerError::ValueError
    );
    assert_eq!(
        infer_schema(&exprs, &schema()).unwrap_err(),
        ContainerError::ValueError
    );
}

#[test]
fn inferred_schema_names_and_types() {
    let exprs = vec![
        col("b"),
        Expr::Alias(Box::new(binary(BinaryOp::Lt, col("a"), lit(2))), "small".to_string()),
        binary(BinaryOp::Plus, col("a"), col("b")),
        Expr::Literal(None),
    ];
    let s = infer_schema(&exprs, &schema()).unwrap();
    let names: Vec<&str> = s.fields.iter().map(|f| f.name.as_str()).collect();
    assert_eq!(names, vec!["b", "small", "a", "literal"]);
    let types: Vec<DataType> = s.fields.iter().map(|f| f.dtype).collect();
    assert_eq!(
        types,
        vec![
            DataType::Int64,
            DataType::Boolean,
            DataType::Int64,
            DataType::Null
        ]
    );
    assert_eq!(
        infer_schema(&vec![col("nope")], &schema()).unwrap_err(),
        ContainerError::TypeError
    );
}

#[test]
fn expression_list_is_evaluated_on_rows_and_statistics() {
    let mp = loaded(Some(stats((1, 3), (5, 30))));
    let exprs = vec![
        Expr::Alias(Box::new(binary(BinaryOp::Plus, col("a"), col("b"))), "sum".to_string()),
        binary(BinaryOp::Lt, col("a"), lit(3)),
    ];
    let out = mp.eval_expression_list(&exprs).unwrap();
    assert_eq!(out.schema.fields[0].name, "sum");
    assert_eq!(
        out.statistics.as_ref().unwrap().columns,
        vec![
            ColumnRange::Missing,
            ColumnRange::Loaded { lower: 0, upper: 1 }
        ]
    );
    let t = tables(out);
    assert_eq!(
        t[0].rows,
        vec![
            vec![Some(11), Some(1)],
            vec![None, Some(1)],
            vec![Some(33), Some(0)]
        ]
    );
    assert_eq!(t[1].rows, vec![vec![None, None], vec![Some(10), Some(0)]]);
    assert_eq!(
        unloaded().eval_expression_list(&exprs).unwrap_err(),
        ContainerError::NotLoaded
    );
}

fn target() -> Schema {
    Schema::new(vec![
        Field::new("b".to_string(), DataType::Int64),
        Field::new("c".to_string(), DataType::Utf8),
        Field::new("a".to_string(), DataType::Boolean),
    ])
}

#[test]
fn cast_to_schema_matches_columns_by_name() {
    let out = loaded(Some(stats((1, 3), (5, 30))))
        .cast_to_schema(target())
        .unwrap();
    assert_eq!(out.schema.fields.len(), 3);
    assert_eq!(out.schema.fields[1].name, "c");
    assert_eq!(
        out.statistics.as_ref().unwrap().columns,
        vec![
            ColumnRange::Loaded {
                lower: 5,
                upper: 30
            },
            ColumnRange::Missing,
            ColumnRange::Loaded { lower: 1, upper: 3 },
        ]
    );
    let t = tables(out);
    assert_eq!(
        t[0].rows,
        vec![
            vec![Some(10), None, Some(1)],
            vec![None, None, Some(2)],
            vec![Some(30), None, Some(3)]
        ]
    );
    assert_eq!(t[1].rows, vec![vec![Some(5), None, None], vec![Some(7), None, Some(3)]]);
    assert_eq!(t[1].schema.fields.len(), 3);
}

#[test]
fn cast_to_schema_leaves_an_unread_container_unread() {
    let out = unloaded().cast_to_schema(target()).unwrap();
    assert_eq!(out.statistics.as_ref().unwrap().columns.len(), 3);
    match out.state {
        TableState::Unloaded(task) => {
            assert_eq!(task.path, "file");
            assert_eq!(task.schema.fields.len(), 3);
            assert_eq!(task.schema.fields[0].name, "b");
        }
        TableState::Loaded(_) => panic!("read"),
    }
}

#[test]
fn explode_unites_schemas_and_forgets_ranges_of_exploded_columns() {
    let mp = loaded(Some(stats((1, 3), (5, 30))));
    let exprs = vec![
        col("b"),
        Expr::Alias(Box::new(col("a")), "items".to_string()),
    ];
    let exploded = vec![Table {
        schema: schema(),
        rows: vec![],
    }];
    let out = mp.explode(&exprs, exploded).unwrap();
    let names: Vec<&str> = out.schema.fields.iter().map(|f| f.name.as_str()).collect();
    assert_eq!(names, vec!["a", "b", "items"]);
    assert_eq!(
        out.statistics.as_ref().unwrap().columns,
        vec![
            ColumnRange::Loaded { lower: 1, upper: 3 },
            ColumnRange::Missing,
            ColumnRange::Missing
        ]
    );
    assert_eq!(tables(out).len(), 1);
}

#[test]
fn explode_errors() {
    let none = || Vec::<Table>::new();
    assert_eq!(
        loaded(None).explode(&vec![col("zz")], none()).unwrap_err(),
        ContainerError::TypeError
    );
    assert_eq!(
        unloaded().explode(&vec![col("a")], none()).unwrap_err(),
        ContainerError::NotLoaded
    );
    assert_eq!(
        loaded(None)
            .explode(&vec![col("a"), col("a")], none())
            .unwrap_err(),
        ContainerError::ValueError
    );
}
