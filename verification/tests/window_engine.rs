use local_engine::container::TableState;
use local_engine::engine::{evaluate_windows, BoundParams, BoundWindowExpr};
use local_engine::eval::BoundExpr;
use local_engine::expr::{AggExpr, AggKind, BinaryOp, Expr, WindowExpr};
use local_engine::partition::{key_precedes, order_rows, partition_ids};
use local_engine::schema::{DataType, Field, Schema};
use local_engine::sink::{EngineError, WindowPartitionAndOrderBySink, WindowState};
use local_engine::table::Table;

fn schema(names: &[&str]) -> Schema {
    Schema::new(
        names
            .iter()
            .map(|n| Field::new(n.to_string(), DataType::Int64))
            .collect(),
    )
}

fn table(names: &[&str], rows: &[&[Option<i64>]]) -> Table {
    Table {
        schema: schema(names),
        rows: rows.iter().map(|r| r.to_vec()).collect(),
    }
}

fn col(name: &str) -> Expr {
    Expr::Column(name.to_string())
}

fn sample() -> Table {
    table(
        &["k", "v"],
        &[
            &[Some(2), Some(30)],
            &[Some(1), Some(20)],
            &[Some(2), Some(10)],
            &[Some(1), Some(20)],
            &[Some(2), None],
            &[Some(1), Some(5)],
        ],
    )
}

#[test]
fn partition_ids_number_partitions_by_first_appearance() {
    let keys = vec![
        vec![Some(5)],
        vec![None],
        vec![Some(5)],
        vec![Some(7)],
        vec![None],
    ];
    assert_eq!(partition_ids(&keys), vec![0, 1, 0, 2, 1]);
}

#[test]
fn key_order_follows_direction_and_null_placement() {
    let asc = vec![false];
    let desc = vec![true];
    assert!(key_precedes(&vec![Some(1)], &vec![Some(2)], &asc));
    assert!(!key_precedes(&vec![Some(2)], &vec![Some(2)], &asc));
    assert!(key_precedes(&vec![Some(2)], &vec![Some(1)], &desc));
    assert!(key_precedes(&vec![Some(9)], &vec![None], &asc));
    assert!(key_precedes(&vec![None], &vec![Some(9)], &desc));
    assert!(key_precedes(
        &vec![Some(1), Some(5)],
        &vec![Some(1), Some(4)],
        &vec![false, true]
    ));
}

#[test]
fn order_rows_is_a_stable_rearrangement() {
    let ids = vec![1, 0, 1, 0, 1];
    let keys = vec![
        vec![Some(3)],
        vec![Some(9)],
        vec![Some(1)],
        vec![Some(9)],
        vec![Some(3)],
    ];
    let order = order_rows(&ids, &keys, &vec![false]);
    assert_eq!(order, vec![1, 3, 2, 0, 4]);
    let mut sorted = order.clone();
    sorted.sort();
    assert_eq!(sorted, vec![0, 1, 2, 3, 4]);
}

#[test]
fn windows_over_two_partitions() {
    let params = BoundParams {
        partition_by: vec![BoundExpr::Column(0)],
        order_by: vec![BoundExpr::Column(1)],
        descending: vec![false],
        functions: vec![
            BoundWindowExpr::RowNumber,
            BoundWindowExpr::Rank,
            BoundWindowExpr::DenseRank,
            BoundWindowExpr::Agg {
                kind: AggKind::Sum,
                input: BoundExpr::Column(1),
            },
            BoundWindowExpr::Offset {
                input: BoundExpr::Column(1),
                offset: 1,
                default: None,
            },
            BoundWindowExpr::Offset {
                input: BoundExpr::Column(1),
                offset: -1,
                default: Some(BoundExpr::Column(0)),
            },
        ],
    };
    let w = evaluate_windows(&sample(), &params);
    assert_eq!(w.partition_of, vec![0, 1, 0, 1, 0, 1]);
    assert_eq!(w.order, vec![2, 0, 4, 5, 1, 3]);
    let expected: Vec<Vec<Option<i64>>> = vec![
        vec![Some(2), Some(10), Some(1), Some(1), Some(1), Some(10), Some(30), Some(2)],
        vec![Some(2), Some(30), Some(2), Some(2), Some(2), Some(40), None, Some(10)],
        vec![Some(2), None, Some(3), Some(3), Some(3), Some(40), None, Some(30)],
        vec![Some(1), Some(5), Some(1), Some(1), Some(1), Some(5), Some(20), Some(1)],
        vec![Some(1), Some(20), Some(2), Some(2), Some(2), Some(25), Some(20), Some(5)],
        vec![Some(1), Some(20), Some(3), Some(2), Some(2), Some(45), None, Some(20)],
    ];
    assert_eq!(w.rows, expected);
}

#[test]
fn every_input_row_leaves_exactly_once() {
    let input = sample();
    let params = BoundParams {
        partition_by: vec![BoundExpr::Column(0)],
        order_by: vec![BoundExpr::Column(1)],
        descending: vec![true],
        functions: vec![BoundWindowExpr::RowNumber],
    };
    let w = evaluate_windows(&input, &params);
    let mut out: Vec<Vec<Option<i64>>> = w.rows.iter().map(|r| r[..2].to_vec()).collect();
    let mut expected = input.rows.clone();
    out.sort();
    expected.sort();
    assert_eq!(out, expected);
    let numbers: Vec<Option<i64>> = w.rows.iter().map(|r| r[2]).collect();
    assert_eq!(
        numbers,
        vec![Some(1), Some(2), Some(3), Some(1), Some(2), Some(3)]
    );
    // descending order puts nulls first
    assert_eq!(w.order[0], 4);
}

fn sink(partition_by: Vec<Expr>, functions: Vec<WindowExpr>) -> WindowPartitionAndOrderBySink {
    let aliases = (0..functions.len()).map(|i| format!("w{i}")).collect();
    WindowPartitionAndOrderBySink::new(
        functions,
        aliases,
        partition_by,
        vec![col("v")],
        vec![false],
        schema(&["k", "v", "w0"]),
    )
    .unwrap()
}

fn states(s: &WindowPartitionAndOrderBySink, batches: Vec<Vec<Table>>) -> Vec<WindowState> {
    batches
        .into_iter()
        .map(|lane| {
            let mut state = s.make_state();
            for batch in lane {
                state = s.sink(batch, state);
            }
            state
        })
        .collect()
}

#[test]
fn finalize_merges_lanes_bucket_by_bucket() {
    let s = sink(vec![col("k")], vec![WindowExpr::Rank]);
    assert_eq!(s.name(), "WindowPartitionAndOrderBy");
    let lanes = states(
        &s,
        vec![
            vec![
                table(&["k", "v"], &[&[Some(1), Some(5)], &[Some(1), Some(3)]]),
                table(&["k", "v"], &[&[Some(9), Some(1)]]),
            ],
            vec![table(&["k", "v"], &[&[Some(1), Some(3)], &[Some(2), Some(0)]])],
        ],
    );
    let out = s.finalize(lanes, 2).unwrap().unwrap();
    assert_eq!(out.schema.fields.len(), 3);
    assert!(out.statistics.is_none());
    let tables = match out.state {
        TableState::Loaded(tables) => tables,
        TableState::Unloaded(_) => panic!("unread"),
    };
    assert_eq!(tables.len(), 2);
    assert_eq!(
        tables[0].rows,
        vec![
            vec![Some(1), Some(3), Some(1)],
            vec![Some(1), Some(3), Some(1)],
            vec![Some(1), Some(5), Some(3)],
            vec![Some(2), Some(0), Some(1)],
        ]
    );
    assert_eq!(tables[0].schema.fields[2].name, "w0");
    assert_eq!(tables[1].rows, vec![vec![Some(9), Some(1), Some(1)]]);
}

#[test]
fn finalize_without_batches_gives_an_empty_container() {
    let s = sink(vec![col("k")], vec![WindowExpr::RowNumber]);
    let lanes = states(&s, vec![vec![], vec![]]);
    let out = s.finalize(lanes, 4).unwrap().unwrap();
    assert_eq!(out.schema.fields.len(), 3);
    assert!(matches!(out.state, TableState::Loaded(t) if t.is_empty()));
}

#[test]
fn finalize_fails_as_a_whole() {
    let batch = || table(&["k", "v"], &[&[Some(1), Some(5)]]);
    let s = sink(vec![], vec![WindowExpr::RowNumber]);
    let lanes = states(&s, vec![vec![batch()]]);
    assert_eq!(s.finalize(lanes, 2).unwrap_err(), EngineError::ValueError);

    let s = sink(vec![col("missing")], vec![WindowExpr::RowNumber]);
    let lanes = states(&s, vec![vec![batch()]]);
    assert_eq!(s.finalize(lanes, 2).unwrap_err(), EngineError::TypeError);

    let s = sink(
        vec![col("k")],
        vec![WindowExpr::Agg(AggExpr {
            kind: AggKind::Sum,
            input: Expr::ScalarFunction("f".to_string(), vec![col("v")]),
        })],
    );
    let lanes = states(&s, vec![vec![batch()]]);
    assert_eq!(s.finalize(lanes, 1).unwrap_err(), EngineError::TypeError);
}

#[test]
fn empty_bucket_gives_an_empty_table_under_the_output_schema() {
    let s = sink(vec![col("k")], vec![WindowExpr::RowNumber]);
    let out = s.process_bucket(table(&["k", "v"], &[])).unwrap();
    assert!(out.rows.is_empty());
    assert_eq!(out.schema.fields.len(), 3);
}

#[test]
fn keys_and_inputs_may_be_expressions() {
    let parity = Expr::Binary(
        BinaryOp::Lt,
        Box::new(col("v")),
        Box::new(Expr::Literal(Some(15))),
    );
    let s = sink(
        vec![parity],
        vec![WindowExpr::Agg(AggExpr {
            kind: AggKind::Sum,
            input: Expr::Binary(
                BinaryOp::Plus,
                Box::new(col("v")),
                Box::new(Expr::Literal(Some(1))),
            ),
        })],
    );
    let out = s
        .process_bucket(table(
            &["k", "v"],
            &[
                &[Some(1), Some(20)],
                &[Some(2), Some(10)],
                &[Some(3), Some(30)],
                &[Some(4), Some(5)],
            ],
        ))
        .unwrap();
    assert_eq!(
        out.rows,
        vec![
            vec![Some(1), Some(20), Some(21)],
            vec![Some(3), Some(30), Some(52)],
            vec![Some(4), Some(5), Some(6)],
            vec![Some(2), Some(10), Some(17)],
        ]
    );
}
