use query_engine::aggregate::{Avg, Count, Max, Min, Sum};
use query_engine::array::ColumnVector;
use query_engine::batch::RecordBatch;
use query_engine::catalog::Catalog;
use query_engine::data_frame::DataFrame;
use query_engine::datatype::{DataType, Field, Schema};
use query_engine::error::Error;
use query_engine::logical_expr::{
    AggregateFunc, AggregateFuncExpr, BinaryExpr as LBinary, LogicalExpr, Operator,
};
use query_engine::logical_plan::{
    Aggregate as LAggregate, Join as LJoin, JoinType, LogicalPlan, Projection as LProjection,
    Scan as LScan, Selection as LSelection,
};
use query_engine::physical_expr::{BinaryExpr, ColumnExpr, LiteralExpr};
use query_engine::physical_plan::{Aggregation, NestedLoopJoin, Projection, Scan, Selection};
use query_engine::planner::QueryPlanner;
use query_engine::scalar::Scalar;
use query_engine::table::Table;

fn f(v: f64) -> Option<u64> {
    Some(v.to_bits())
}

/// The rows of the sample file: id, name, age, score.
fn test_table() -> Table {
    let schema = Schema::new(vec![
        Field::new("id", DataType::Int64, true),
        Field::new("name", DataType::Utf8, true),
        Field::new("age", DataType::Int64, true),
        Field::new("score", DataType::Float64, true),
    ]);
    let columns = vec![
        ColumnVector::Int64(vec![Some(1), Some(2), Some(3), Some(4), Some(5)]),
        ColumnVector::Utf8(vec![
            Some("bigboss2063".to_string()),
            Some("Vincent Hu".to_string()),
            Some("KamenRider".to_string()),
            Some("nutswalker".to_string()),
            Some("Brian".to_string()),
        ]),
        ColumnVector::Int64(vec![Some(24), Some(24), Some(18), Some(18), Some(26)]),
        ColumnVector::Float64(vec![f(0.0), f(100.0), f(99.99), f(99.98), f(99.97)]),
    ];
    let batch = RecordBatch::try_new(schema.clone(), columns, 5).unwrap();
    Table::try_new(schema, vec![batch], "CSV file".to_string()).unwrap()
}

/// Salaries by id.
fn salary_table() -> Table {
    let schema = Schema::new(vec![
        Field::new("id", DataType::Int64, true),
        Field::new("salary", DataType::Int64, true),
    ]);
    let columns = vec![
        ColumnVector::Int64(vec![Some(1), Some(2), Some(3)]),
        ColumnVector::Int64(vec![Some(1000), Some(2000), Some(3000)]),
    ];
    let batch = RecordBatch::try_new(schema.clone(), columns, 3).unwrap();
    Table::try_new(schema, vec![batch], "CSV file".to_string()).unwrap()
}

fn test_df() -> DataFrame {
    let mut catalog = Catalog::new();
    catalog.add_table("test", test_table());
    catalog.get_table_df("test").unwrap()
}

fn col(name: &str) -> LogicalExpr {
    LogicalExpr::Column(name.to_string())
}

fn lit(s: Scalar) -> LogicalExpr {
    LogicalExpr::Literal(s)
}

fn bin(l: LogicalExpr, op: Operator, r: LogicalExpr) -> LogicalExpr {
    LogicalExpr::BinaryExpr(LBinary { left: Box::new(l), op, right: Box::new(r) })
}

fn floats(c: &ColumnVector) -> Vec<f64> {
    match c {
        ColumnVector::Float64(v) => v.iter().map(|x| f64::from_bits(x.unwrap())).collect(),
        _ => panic!("not a Float64 column"),
    }
}

fn ints(c: &ColumnVector) -> Vec<i64> {
    match c {
        ColumnVector::Int64(v) => v.iter().map(|x| x.unwrap()).collect(),
        _ => panic!("not an Int64 column"),
    }
}

fn texts(c: &ColumnVector) -> Vec<String> {
    match c {
        ColumnVector::Utf8(v) => v.iter().map(|x| x.clone().unwrap()).collect(),
        _ => panic!("not a Utf8 column"),
    }
}

fn run(df: DataFrame) -> Vec<RecordBatch> {
    let plan = QueryPlanner::create_physical_plan(df.plan()).unwrap();
    plan.execute().unwrap()
}

#[test]
fn scan_physical_plan() {
    let scan = Scan::new(test_table(), None);
    let res = scan.execute().unwrap();
    assert_eq!(res.len(), 1);
    let batch = &res[0];
    assert_eq!(ints(batch.column(0)), vec![1, 2, 3, 4, 5]);
    assert_eq!(
        texts(batch.column(1)),
        vec!["bigboss2063", "Vincent Hu", "KamenRider", "nutswalker", "Brian"]
    );
    assert_eq!(ints(batch.column(2)), vec![24, 24, 18, 18, 26]);
    assert_eq!(floats(batch.column(3)), vec![0.0, 100.0, 99.99, 99.98, 99.97]);
}

#[test]
fn projection_physical_plan() {
    let table = test_table();
    let schema = Schema::new(vec![table.schema().field(0).clone(), table.schema().field(3).clone()]);
    let scan = Scan::new(table, None);
    let add_expr = BinaryExpr::new(
        ColumnExpr::new(3),
        Operator::Add,
        LiteralExpr::new(Scalar::Float64(f(1.0))),
    );
    let projection = Projection::new(scan, schema, vec![ColumnExpr::new(0), add_expr]);
    let res = projection.execute().unwrap();
    assert_eq!(res.len(), 1);
    let batch = &res[0];
    assert_eq!(ints(batch.column(0)), vec![1, 2, 3, 4, 5]);
    assert_eq!(floats(batch.column(1)), vec![1.0, 101.0, 100.99, 100.98, 100.97]);
}

#[test]
fn test_selection() {
    let table = test_table();
    let schema = Schema::new(vec![table.schema().field(1).clone(), table.schema().field(3).clone()]);
    let scan = Scan::new(table, None);
    let sub_expr = BinaryExpr::new(
        ColumnExpr::new(3),
        Operator::Sub,
        LiteralExpr::new(Scalar::Float64(f(1.0))),
    );
    let projection = Projection::new(scan, schema, vec![ColumnExpr::new(1), sub_expr]);
    let expr = BinaryExpr::new(
        ColumnExpr::new(1),
        Operator::Gt,
        LiteralExpr::new(Scalar::Float64(f(0.0))),
    );
    let selection = Selection::new(projection, expr);
    let res = selection.execute().unwrap();
    assert_eq!(res.len(), 1);
    let batch = &res[0];
    assert_eq!(texts(batch.column(0)), vec!["Vincent Hu", "KamenRider", "nutswalker", "Brian"]);
    assert_eq!(floats(batch.column(1)), vec![99.0, 98.99, 98.98, 98.97]);
}

#[test]
fn test_aggregation() {
    let scan = Scan::new(test_table(), None);
    let group_expr = BinaryExpr::new(
        ColumnExpr::new(2),
        Operator::LtEq,
        LiteralExpr::new(Scalar::Int64(Some(24))),
    );
    let column = ColumnExpr { index: 3 };
    let schema = Schema::new(vec![
        Field::new("age <= 24", DataType::Boolean, true),
        Field::new("MAX(score)", DataType::Float64, true),
        Field::new("MIN(score)", DataType::Float64, true),
        Field::new("COUNT(score)", DataType::UInt64, true),
        Field::new("AVG(score)", DataType::Float64, true),
        Field::new("SUM(score)", DataType::Float64, true),
    ]);
    let aggregation = Aggregation::new(
        scan,
        Some(group_expr),
        vec![
            Max::new(DataType::Float64, column),
            Min::new(DataType::Float64, column),
            Count::new(column),
            Avg::new(DataType::Float64, column),
            Sum::new(DataType::Float64, column),
        ],
        schema,
    );
    let res = aggregation.execute().unwrap();
    assert_eq!(res.len(), 1);
    let batch = &res[0];
    assert_eq!(batch.num_rows(), 2);
    match batch.column(0) {
        ColumnVector::Boolean(keys) => assert_eq!(keys, &vec![Some(true), Some(false)]),
        _ => panic!("group keys are not Boolean"),
    }
    assert_eq!(floats(batch.column(1)), vec![100.0, 99.97]);
    assert_eq!(floats(batch.column(2)), vec![0.0, 99.97]);
    match batch.column(3) {
        ColumnVector::UInt64(c) => assert_eq!(c, &vec![Some(4), Some(1)]),
        _ => panic!("counts are not UInt64"),
    }
    let true_sum = 0.0 + 0.0 + 100.0 + 99.99 + 99.98;
    assert_eq!(floats(batch.column(5)), vec![true_sum, 0.0 + 99.97]);
    assert_eq!(floats(batch.column(4)), vec![true_sum / 4.0, (0.0 + 99.97) / 1.0]);
}

#[test]
fn test_nested_loop_join() {
    let test_source = test_table();
    let salary_source = salary_table();
    let mut fields = test_source.schema().fields().clone();
    fields.extend(salary_source.schema().fields().clone());
    let join = NestedLoopJoin::new(
        Scan::new(test_source, None),
        Scan::new(salary_source, None),
        vec![(ColumnExpr { index: 0 }, ColumnExpr { index: 0 })],
        Schema::new(fields),
    );
    let res = join.execute().unwrap();
    assert_eq!(res.len(), 1);
    let batch = &res[0];
    assert_eq!(batch.num_columns(), 6);
    assert_eq!(ints(batch.column(0)), vec![1, 2, 3]);
    assert_eq!(ints(batch.column(5)), vec![1000, 2000, 3000]);
}

#[test]
fn create_logical_plan_by_df() {
    let df = test_df()
        .select(bin(col("age"), Operator::GtEq, lit(Scalar::Int64(Some(24)))))
        .unwrap()
        .project(vec![col("name"), col("score")])
        .unwrap();
    assert_eq!(
        "Projection:\
        \n  exprs: [Column(\"name\"), Column(\"score\")]\
        \n  input:\
        \n    Selection:\
        \n      expr: BinaryExpr(BinaryExpr { left: Column(\"age\"), op: GtEq, right: Literal(Int64(Some(24))) })\
        \n      input:\
        \n        Scan:\
        \n          source_type: \"CSV file\"\
        \n          projection: None\
        \n  schema: Schema { fields: [Field { name: \"name\", data_type: Utf8, nullable: true }, Field { name: \"score\", data_type: Float64, nullable: true }] }\n",
        df.plan().to_string()
    );
}

#[test]
fn create_and_print_logical_plan() {
    let scan = LogicalPlan::Scan(LScan { data_source: test_table(), projection: None });
    assert_eq!(
        "Scan:\
        \n  source_type: \"CSV file\"\
        \n  projection: None\n",
        scan.to_string()
    );
    let scan_of = || LogicalPlan::Scan(LScan { data_source: test_table(), projection: None });

    let selection = LogicalPlan::Selection(LSelection {
        input: Box::new(scan_of()),
        expr: bin(col("age"), Operator::GtEq, lit(Scalar::Int64(Some(24)))),
    });
    assert_eq!(
        "Selection:\
        \n  expr: BinaryExpr(BinaryExpr { left: Column(\"age\"), op: GtEq, right: Literal(Int64(Some(24))) })\
        \n  input:\
        \n    Scan:\
        \n      source_type: \"CSV file\"\
        \n      projection: None\n",
        selection.to_string()
    );

    let projection_of = || {
        LogicalPlan::Projection(LProjection {
            input: Box::new(scan_of()),
            exprs: vec![col("age")],
            schema: Schema::new(vec![]),
        })
    };
    assert_eq!(
        "Projection:\
        \n  exprs: [Column(\"age\")]\
        \n  input:\
        \n    Scan:\
        \n      source_type: \"CSV file\"\
        \n      projection: None\
        \n  schema: Schema { fields: [] }\n",
        projection_of().to_string()
    );

    let aggregate = LogicalPlan::Aggregate(LAggregate {
        input: Box::new(scan_of()),
        group_expr: vec![col("age")],
        aggr_expr: vec![AggregateFuncExpr { func: AggregateFunc::MAX, expr: Box::new(col("age")) }],
        schema: Schema::new(vec![]),
    });
    assert_eq!(
        "Aggregate:\
        \n  input:\
        \n    Scan:\
        \n      source_type: \"CSV file\"\
        \n      projection: None\
        \n  group_expr: [Column(\"age\")]\
        \n  aggr_expr: [AggregateFuncExpr { func: MAX, expr: Column(\"age\") }]\
        \n  schema: Schema { fields: [] }\n",
        aggregate.to_string()
    );

    let join = LogicalPlan::Join(LJoin {
        left: Box::new(scan_of()),
        on: vec![],
        right: Box::new(projection_of()),
        join_type: JoinType::Inner,
        schema: Schema::new(vec![]),
    });
    assert_eq!(
        "Join:\
        \n  left:\
        \n    Scan:\
        \n      source_type: \"CSV file\"\
        \n      projection: None\
        \n  right:\
        \n    Projection:\
        \n      exprs: [Column(\"age\")]\
        \n      input:\
        \n        Scan:\
        \n          source_type: \"CSV file\"\
        \n          projection: None\
        \n      schema: Schema { fields: [] }\
        \n  on: []\
        \n  join_type: Inner\
        \n  schema: Schema { fields: [] }\n",
        join.to_string()
    );
}

#[test]
fn scan_all_rows() {
    let res = Scan::new(test_table(), None).execute().unwrap();
    assert_eq!(res.len(), 1);
    assert_eq!(res[0].num_rows(), 5);
    assert_eq!(res[0].num_columns(), 4);
    assert_eq!(ints(res[0].column(0)), vec![1, 2, 3, 4, 5]);
    assert_eq!(floats(res[0].column(3)), vec![0.0, 100.0, 99.99, 99.98, 99.97]);
}

#[test]
fn scan_with_projection_reorders_columns() {
    let res = Scan::new(test_table(), Some(vec![3, 1])).execute().unwrap();
    let batch = &res[0];
    assert_eq!(batch.num_columns(), 2);
    assert_eq!(batch.schema().field(0).name(), "score");
    assert_eq!(batch.schema().field(1).name(), "name");
    assert_eq!(floats(batch.column(0)), vec![0.0, 100.0, 99.99, 99.98, 99.97]);
    assert_eq!(texts(batch.column(1))[4], "Brian");
    assert!(matches!(test_table().scan(&Some(vec![4])), Err(Error::ArrowError(_))));
}

#[test]
fn filter_then_project() {
    let df = test_df()
        .select(bin(col("age"), Operator::GtEq, lit(Scalar::Int64(Some(24)))))
        .unwrap()
        .project(vec![col("name"), col("score")])
        .unwrap();
    assert_eq!(df.schema().fields().len(), 2);
    let res = run(df);
    assert_eq!(res.len(), 1);
    assert_eq!(res[0].num_rows(), 3);
    assert_eq!(texts(res[0].column(0)), vec!["bigboss2063", "Vincent Hu", "Brian"]);
    assert_eq!(floats(res[0].column(1)), vec![0.0, 100.0, 99.97]);
}

#[test]
fn project_arithmetic() {
    let df = test_df()
        .project(vec![col("id"), bin(col("score"), Operator::Add, lit(Scalar::Float64(f(1.0))))])
        .unwrap();
    assert_eq!(df.schema().field(1).name(), "score + 1.0");
    assert_eq!(df.schema().field(1).data_type(), DataType::Float64);
    let res = run(df);
    assert_eq!(ints(res[0].column(0)), vec![1, 2, 3, 4, 5]);
    assert_eq!(floats(res[0].column(1)), vec![1.0, 101.0, 100.99, 100.98, 100.97]);
}

#[test]
fn select_after_projection() {
    let minus = || bin(col("score"), Operator::Sub, lit(Scalar::Float64(f(1.0))));
    let df = test_df().project(vec![col("name"), minus()]).unwrap();
    let df = df
        .select(bin(col("score - 1.0"), Operator::Gt, lit(Scalar::Float64(f(0.0)))))
        .unwrap();
    let res = run(df);
    assert_eq!(res[0].num_rows(), 4);
    assert_eq!(texts(res[0].column(0)), vec!["Vincent Hu", "KamenRider", "nutswalker", "Brian"]);
    assert_eq!(floats(res[0].column(1)), vec![99.0, 98.99, 98.98, 98.97]);
}

#[test]
fn grouped_aggregation_through_planner() {
    let agg = |func| AggregateFuncExpr { func, expr: Box::new(col("score")) };
    let df = test_df()
        .aggregate(
            vec![bin(col("age"), Operator::LtEq, lit(Scalar::Int64(Some(24))))],
            vec![
                agg(AggregateFunc::MAX),
                agg(AggregateFunc::MIN),
                agg(AggregateFunc::COUNT),
                agg(AggregateFunc::AVG),
                agg(AggregateFunc::SUM),
            ],
        )
        .unwrap();
    assert_eq!(df.schema().fields().len(), 6);
    assert_eq!(df.schema().field(3).name(), "COUNT(score)");
    assert_eq!(df.schema().field(3).data_type(), DataType::UInt64);
    let res = run(df);
    let batch = &res[0];
    assert_eq!(batch.num_rows(), 2);
    let keys = match batch.column(0) {
        ColumnVector::Boolean(k) => k.clone(),
        _ => panic!("group keys are not Boolean"),
    };
    assert_ne!(keys[0], keys[1]);
    let counts = match batch.column(3) {
        ColumnVector::UInt64(c) => c.iter().map(|x| x.unwrap()).collect::<Vec<u64>>(),
        _ => panic!("counts are not UInt64"),
    };
    assert_eq!(counts.iter().sum::<u64>(), 5);
    let sums = floats(batch.column(5));
    for g in 0..2 {
        let expected = if keys[g] == Some(true) {
            0.0 + 0.0 + 100.0 + 99.99 + 99.98
        } else {
            0.0 + 99.97
        };
        assert_eq!(sums[g], expected);
    }
}

#[test]
fn planning_display_of_filter_project() {
    let df = test_df()
        .select(bin(col("age"), Operator::GtEq, lit(Scalar::Int64(Some(24)))))
        .unwrap()
        .project(vec![col("name"), col("score")])
        .unwrap();
    let text = df.plan().to_string();
    let lines: Vec<&str> = text.lines().collect();
    assert_eq!(lines[0], "Projection:");
    assert!(lines[1].starts_with("  exprs: "));
    assert_eq!(lines[2], "  input:");
    assert_eq!(lines[3], "    Selection:");
    assert!(lines[lines.len() - 1].starts_with("  schema: "));
}

#[test]
fn selection_by_constant_predicate() {
    let keep = Selection::new(Scan::new(test_table(), None), LiteralExpr::new(Scalar::Boolean(Some(true))));
    let res = keep.execute().unwrap();
    assert_eq!(res[0].num_rows(), 5);
    assert_eq!(ints(res[0].column(0)), vec![1, 2, 3, 4, 5]);
    let drop = Selection::new(Scan::new(test_table(), None), LiteralExpr::new(Scalar::Boolean(Some(false))));
    let res = drop.execute().unwrap();
    assert_eq!(res[0].num_rows(), 0);
    assert_eq!(ints(res[0].column(0)), Vec::<i64>::new());
}

#[test]
fn selection_keeps_rows_with_null_predicate() {
    let schema = Schema::new(vec![Field::new("x", DataType::Int64, true)]);
    let batch = RecordBatch::try_new(
        schema.clone(),
        vec![ColumnVector::Int64(vec![Some(1), None, Some(3)])],
        3,
    )
    .unwrap();
    let table = Table::try_new(schema, vec![batch], "memory".to_string()).unwrap();
    let pred = BinaryExpr::new(ColumnExpr::new(0), Operator::Gt, LiteralExpr::new(Scalar::Int64(Some(1))));
    let res = Selection::new(Scan::new(table, None), pred).execute().unwrap();
    match res[0].column(0) {
        ColumnVector::Int64(v) => assert_eq!(v, &vec![None, Some(3)]),
        _ => panic!("not an Int64 column"),
    }
}

#[test]
fn ungrouped_integer_aggregates() {
    let column = ColumnExpr { index: 2 };
    let schema = Schema::new(vec![
        Field::new("SUM(age)", DataType::Int64, true),
        Field::new("MIN(age)", DataType::Int64, true),
        Field::new("MAX(age)", DataType::Int64, true),
        Field::new("COUNT(age)", DataType::UInt64, true),
        Field::new("AVG(age)", DataType::Float64, true),
    ]);
    let plan = Aggregation::new(
        Scan::new(test_table(), None),
        None,
        vec![
            Sum::new(DataType::Int64, column),
            Min::new(DataType::Int64, column),
            Max::new(DataType::Int64, column),
            Count::new(column),
            Avg::new(DataType::Int64, column),
        ],
        schema,
    );
    let res = plan.execute().unwrap();
    let batch = &res[0];
    assert_eq!(batch.num_rows(), 1);
    assert_eq!(ints(batch.column(0)), vec![110]);
    assert_eq!(ints(batch.column(1)), vec![18]);
    assert_eq!(ints(batch.column(2)), vec![26]);
    match batch.column(3) {
        ColumnVector::UInt64(c) => assert_eq!(c, &vec![Some(5)]),
        _ => panic!("count is not UInt64"),
    }
    assert_eq!(floats(batch.column(4)), vec![22.0]);
    assert!(18 * 5 <= 110 && 110 <= 26 * 5);
}

#[test]
fn count_skips_nulls_and_avg_of_nothing_is_null() {
    let schema = Schema::new(vec![Field::new("x", DataType::Int64, true)]);
    let batch = RecordBatch::try_new(
        schema.clone(),
        vec![ColumnVector::Int64(vec![None, Some(4), None])],
        3,
    )
    .unwrap();
    let table = Table::try_new(schema, vec![batch], "memory".to_string()).unwrap();
    let column = ColumnExpr { index: 0 };
    let out = Schema::new(vec![
        Field::new("COUNT(x)", DataType::UInt64, true),
        Field::new("AVG(x)", DataType::Float64, true),
    ]);
    let res = Aggregation::new(
        Scan::new(table, None),
        None,
        vec![Count::new(column), Avg::new(DataType::Int64, column)],
        out,
    )
    .execute()
    .unwrap();
    match res[0].column(0) {
        ColumnVector::UInt64(c) => assert_eq!(c, &vec![Some(1)]),
        _ => panic!("count is not UInt64"),
    }
    assert_eq!(floats(res[0].column(1)), vec![4.0]);

    let schema = Schema::new(vec![Field::new("x", DataType::Int64, true)]);
    let empty = Table::try_new(schema, vec![], "memory".to_string()).unwrap();
    let out = Schema::new(vec![Field::new("AVG(x)", DataType::Float64, true)]);
    let res = Aggregation::new(Scan::new(empty, None), None, vec![Avg::new(DataType::Int64, column)], out)
        .execute()
        .unwrap();
    match res[0].column(0) {
        ColumnVector::Float64(v) => assert_eq!(v, &vec![None]),
        _ => panic!("average is not Float64"),
    }
}

#[test]
fn join_membership_commutes() {
    let keys = |vals: Vec<Option<i64>>| {
        let n = vals.len();
        let schema = Schema::new(vec![Field::new("k", DataType::Int64, true)]);
        let batch = RecordBatch::try_new(schema.clone(), vec![ColumnVector::Int64(vals)], n).unwrap();
        Table::try_new(schema, vec![batch], "memory".to_string()).unwrap()
    };
    let schema2 = || {
        Schema::new(vec![Field::new("k", DataType::Int64, true), Field::new("k", DataType::Int64, true)])
    };
    let l = || keys(vec![Some(1), Some(2), Some(3)]);
    let r = || keys(vec![Some(3), Some(1), Some(7)]);
    let on = || vec![(ColumnExpr { index: 0 }, ColumnExpr { index: 0 })];
    let lr = NestedLoopJoin::new(Scan::new(l(), None), Scan::new(r(), None), on(), schema2())
        .execute()
        .unwrap();
    let rl = NestedLoopJoin::new(Scan::new(r(), None), Scan::new(l(), None), on(), schema2())
        .execute()
        .unwrap();
    assert_eq!(ints(lr[0].column(0)), vec![1, 3]);
    assert_eq!(ints(lr[0].column(1)), vec![3, 1]);
    assert_eq!(ints(rl[0].column(0)), vec![3, 1]);
    assert_eq!(ints(rl[0].column(1)), vec![1, 3]);
}

#[test]
fn join_through_planner() {
    let mut catalog = Catalog::new();
    catalog.add_table("test", test_table());
    catalog.add_table("salary", salary_table());
    let right = catalog.get_table_df("salary").unwrap();
    let df = catalog
        .get_table_df("test")
        .unwrap()
        .join(right.plan, JoinType::Inner, (vec!["id".to_string()], vec!["id".to_string()]))
        .unwrap();
    assert_eq!(df.schema().fields().len(), 6);
    let res = run(df);
    assert_eq!(res[0].num_rows(), 3);
    assert_eq!(ints(res[0].column(5)), vec![1000, 2000, 3000]);
}

#[test]
fn error_no_such_field() {
    let r = test_df().project(vec![col("nope")]);
    assert!(matches!(r, Err(Error::NoSuchField)));
}

#[test]
fn error_no_such_table() {
    let catalog = Catalog::new();
    assert!(matches!(catalog.get_table_df("missing"), Err(Error::NoSuchTable(_))));
}

#[test]
fn error_no_such_column_when_planning() {
    let plan = LogicalPlan::Selection(LSelection {
        input: Box::new(test_df().plan),
        expr: bin(col("nope"), Operator::Eq, lit(Scalar::Int64(Some(1)))),
    });
    assert!(matches!(QueryPlanner::create_physical_plan(&plan), Err(Error::NoSuchColumn(_))));
}

#[test]
fn error_join_key_lists_differ() {
    let right = test_df();
    let r = test_df().join(
        right.plan,
        JoinType::Inner,
        (vec!["id".to_string()], vec!["id".to_string(), "age".to_string()]),
    );
    assert!(matches!(r, Err(Error::LogicalPlanError(_))));
}

#[test]
fn error_join_without_keys() {
    let join = NestedLoopJoin::new(
        Scan::new(test_table(), None),
        Scan::new(salary_table(), None),
        vec![],
        Schema::new(vec![]),
    );
    assert!(matches!(join.execute(), Err(Error::PhysicalPlanError(_))));
}

#[test]
fn error_operand_types_differ() {
    let expr = BinaryExpr::new(ColumnExpr::new(0), Operator::Add, ColumnExpr::new(3));
    let plan = Selection::new(Scan::new(test_table(), None), expr);
    assert!(matches!(plan.execute(), Err(Error::IntervalError(_))));
}

#[test]
fn error_integer_overflow_and_division_by_zero() {
    let schema = Schema::new(vec![Field::new("x", DataType::Int64, true)]);
    let batch = RecordBatch::try_new(schema.clone(), vec![ColumnVector::Int64(vec![Some(i64::MAX)])], 1)
        .unwrap();
    let table = Table::try_new(schema.clone(), vec![batch], "memory".to_string()).unwrap();
    let out = Schema::new(vec![Field::new("x + 1", DataType::Int64, true)]);
    let add = BinaryExpr::new(ColumnExpr::new(0), Operator::Add, LiteralExpr::new(Scalar::Int64(Some(1))));
    let r = Projection::new(Scan::new(table, None), out, vec![add]).execute();
    assert!(matches!(r, Err(Error::ArrowError(_))));

    let batch = RecordBatch::try_new(schema.clone(), vec![ColumnVector::Int64(vec![Some(7)])], 1).unwrap();
    let table = Table::try_new(schema, vec![batch], "memory".to_string()).unwrap();
    let out = Schema::new(vec![Field::new("x / 0", DataType::Int64, true)]);
    let div = BinaryExpr::new(ColumnExpr::new(0), Operator::Div, LiteralExpr::new(Scalar::Int64(Some(0))));
    let r = Projection::new(Scan::new(table, None), out, vec![div]).execute();
    assert!(matches!(r, Err(Error::ArrowError(_))));
}

#[test]
fn integer_kernels_and_text() {
    let schema = Schema::new(vec![Field::new("x", DataType::Int64, true)]);
    let batch = RecordBatch::try_new(schema.clone(), vec![ColumnVector::Int64(vec![Some(-7), Some(9)])], 2)
        .unwrap();
    let table = Table::try_new(schema, vec![batch], "memory".to_string()).unwrap();
    let out = Schema::new(vec![
        Field::new("x / 2", DataType::Int64, true),
        Field::new("x % 2", DataType::Int64, true),
    ]);
    let two = || LiteralExpr::new(Scalar::Int64(Some(2)));
    let res = Projection::new(
        Scan::new(table, None),
        out,
        vec![
            BinaryExpr::new(ColumnExpr::new(0), Operator::Div, two()),
            BinaryExpr::new(ColumnExpr::new(0), Operator::Mod, two()),
        ],
    )
    .execute()
    .unwrap();
    assert_eq!(ints(res[0].column(0)), vec![-3, 4]);
    assert_eq!(ints(res[0].column(1)), vec![-1, 1]);
    assert_eq!(Scalar::Int64(Some(-24)).to_field().name(), "-24");
    assert_eq!(Scalar::UInt64(Some(7)).to_field().name(), "7");
    assert_eq!(Scalar::Float64(f(2.5)).to_string(), "2.5");
}

#[test]
fn string_comparison_and_grouping() {
    let schema = Schema::new(vec![
        Field::new("s", DataType::Utf8, true),
        Field::new("v", DataType::Int64, true),
    ]);
    let batch = RecordBatch::try_new(
        schema.clone(),
        vec![
            ColumnVector::Utf8(vec![Some("b".to_string()), Some("a".to_string()), Some("b".to_string()), None]),
            ColumnVector::Int64(vec![Some(1), Some(2), Some(3), Some(4)]),
        ],
        4,
    )
    .unwrap();
    let table = Table::try_new(schema, vec![batch], "memory".to_string()).unwrap();
    let out = Schema::new(vec![
        Field::new("s", DataType::Utf8, true),
        Field::new("SUM(v)", DataType::Int64, true),
    ]);
    let res = Aggregation::new(
        Scan::new(table, None),
        Some(ColumnExpr::new(0)),
        vec![Sum::new(DataType::Int64, ColumnExpr { index: 1 })],
        out,
    )
    .execute()
    .unwrap();
    assert_eq!(texts(res[0].column(0)), vec!["b", "a"]);
    assert_eq!(ints(res[0].column(1)), vec![4, 2]);

    let lt = BinaryExpr::new(ColumnExpr::new(0), Operator::Lt, LiteralExpr::new(Scalar::Utf8(Some("ab".to_string()))));
    let cols = ColumnVector::Utf8(vec![Some("a".to_string()), Some("b".to_string())]);
    let batch = RecordBatch::try_new(Schema::new(vec![Field::new("s", DataType::Utf8, true)]), vec![cols], 2).unwrap();
    match lt.evaluate(&batch).unwrap().to_array() {
        ColumnVector::Boolean(v) => assert_eq!(v, vec![Some(true), Some(false)]),
        _ => panic!("comparison is not Boolean"),
    }
}

#[test]
fn float_multiply_and_remainder() {
    let schema = Schema::new(vec![Field::new("x", DataType::Float64, true)]);
    let batch = RecordBatch::try_new(schema.clone(), vec![ColumnVector::Float64(vec![f(7.5), None])], 2)
        .unwrap();
    let table = Table::try_new(schema, vec![batch], "memory".to_string()).unwrap();
    let out = Schema::new(vec![
        Field::new("x * 2.0", DataType::Float64, true),
        Field::new("x % 2.0", DataType::Float64, true),
    ]);
    let two = || LiteralExpr::new(Scalar::Float64(f(2.0)));
    let res = Projection::new(
        Scan::new(table, None),
        out,
        vec![
            BinaryExpr::new(ColumnExpr::new(0), Operator::Mul, two()),
            BinaryExpr::new(ColumnExpr::new(0), Operator::Mod, two()),
        ],
    )
    .execute()
    .unwrap();
    match (res[0].column(0), res[0].column(1)) {
        (ColumnVector::Float64(m), ColumnVector::Float64(r)) => {
            assert_eq!(m, &vec![f(15.0), None]);
            assert_eq!(r, &vec![f(1.5), None]);
        }
        _ => panic!("results are not Float64"),
    }
}

#[test]
fn float_nan_is_canonical() {
    let schema = Schema::new(vec![Field::new("x", DataType::Float64, true)]);
    let batch = RecordBatch::try_new(schema.clone(), vec![ColumnVector::Float64(vec![f(0.0), f(1.0)])], 2)
        .unwrap();
    let table = Table::try_new(schema, vec![batch], "memory".to_string()).unwrap();
    let out = Schema::new(vec![Field::new("x / 0.0", DataType::Float64, true)]);
    let div = BinaryExpr::new(ColumnExpr::new(0), Operator::Div, LiteralExpr::new(Scalar::Float64(f(0.0))));
    let res = Projection::new(Scan::new(table, None), out, vec![div]).execute().unwrap();
    match res[0].column(0) {
        ColumnVector::Float64(v) => {
            assert_eq!(v[0], Some(0x7ff8_0000_0000_0000));
            assert_eq!(v[1], f(f64::INFINITY));
        }
        _ => panic!("result is not Float64"),
    }
}

#[test]
fn type_mismatch_message() {
    let expr = BinaryExpr::new(ColumnExpr::new(0), Operator::Add, ColumnExpr::new(3));
    let plan = Selection::new(Scan::new(test_table(), None), expr);
    match plan.execute() {
        Err(Error::IntervalError(m)) => {
            assert_eq!(m, "Cannot evaluate binary expression + with types Int64 and Float64")
        }
        _ => panic!("expected an operand type error"),
    }
}

#[test]
fn planning_errors_by_kind() {
    let agg = LogicalPlan::Aggregate(LAggregate {
        input: Box::new(test_df().plan),
        group_expr: vec![],
        aggr_expr: vec![AggregateFuncExpr { func: AggregateFunc::SUM, expr: Box::new(lit(Scalar::Int64(Some(1)))) }],
        schema: Schema::new(vec![]),
    });
    assert!(matches!(QueryPlanner::create_physical_plan(&agg), Err(Error::LogicalPlanError(_))));
    let right = test_df();
    let df = test_df()
        .join(right.plan, JoinType::Inner, (vec!["id".to_string()], vec!["nope".to_string()]))
        .unwrap();
    assert!(matches!(QueryPlanner::create_physical_plan(df.plan()), Err(Error::NoSuchColumn(_))));
}
