use rowpipe::context::ExecutionContext;
use rowpipe::dataframe::{format_line, DF};
use rowpipe::error::ExecutionError;
use rowpipe::expr::{compare_values, Expr, LogicalPlan, Operator, ScalarFunction};
use rowpipe::plan::{
    derive_project_schema, find_source, open_scan, scan_path, table_path, ExecutionPlan,
};
use rowpipe::relation::{
    filter_rows, limit_rows, project_rows, scan_records, CsvRelation, SimpleRelation, Source,
};
use rowpipe::schema::{DataType, Field, Row, Schema, Value};
use rowpipe::source::{create_tuple, read_records};
use rowpipe::stream::RowStream;
use rowpipe::text::{doubles_equal, doubles_less, text_less};

enum Builtin {
    Sqrt,
    StPoint,
    StAsText,
}

fn number(v: &Value) -> Option<f64> {
    match v {
        Value::UnsignedLong(n) => Some(*n as f64),
        Value::Double(bits) => Some(f64::from_bits(*bits)),
        _ => None,
    }
}

impl ScalarFunction for Builtin {
    fn name(&self) -> String {
        match self {
            Builtin::Sqrt => "sqrt".to_string(),
            Builtin::StPoint => "ST_Point".to_string(),
            Builtin::StAsText => "ST_AsText".to_string(),
        }
    }

    fn args(&self) -> Vec<DataType> {
        match self {
            Builtin::Sqrt => vec![DataType::Double],
            Builtin::StPoint => vec![DataType::Double, DataType::Double],
            Builtin::StAsText => vec![DataType::Point],
        }
    }

    fn return_type(&self) -> DataType {
        match self {
            Builtin::Sqrt => DataType::Double,
            Builtin::StPoint => DataType::Point,
            Builtin::StAsText => DataType::String,
        }
    }

    fn execute(&self, args: Vec<Value>) -> Result<Value, ExecutionError> {
        match (self, args.as_slice()) {
            (Builtin::Sqrt, [x]) => match number(x) {
                Some(n) => Ok(Value::Double(n.sqrt().to_bits())),
                None => Err(ExecutionError::InvocationFailed),
            },
            (Builtin::StPoint, [lat, lng]) => match (number(lat), number(lng)) {
                (Some(a), Some(b)) => Ok(Value::Point(a.to_bits(), b.to_bits())),
                _ => Err(ExecutionError::InvocationFailed),
            },
            (Builtin::StAsText, [Value::Point(lat, lng)]) => Ok(Value::String(format!(
                "POINT ({} {})",
                f64::from_bits(*lat),
                f64::from_bits(*lng)
            ))),
            _ => Err(ExecutionError::InvocationFailed),
        }
    }
}

fn decode(data: &[u8]) -> Vec<Vec<Option<u64>>> {
    read_records(data)
        .into_iter()
        .map(|record| match record {
            Ok(fields) => fields.iter().map(|f| f.parse::<f64>().ok().map(f64::to_bits)).collect(),
            Err(_) => Vec::new(),
        })
        .collect()
}

fn source(path: &str, text: &str) -> Source {
    let data = text.as_bytes().to_vec();
    let doubles = decode(&data);
    Source { path: path.to_string(), data, doubles }
}

fn people_schema() -> Schema {
    Schema::new(vec![
        Field::new("id", DataType::UnsignedLong, false),
        Field::new("name", DataType::String, false),
    ])
}

fn cities_schema() -> Schema {
    Schema::new(vec![
        Field::new("city", DataType::String, false),
        Field::new("lat", DataType::Double, false),
        Field::new("lng", DataType::Double, false),
    ])
}

fn sources() -> Vec<Source> {
    vec![
        source("test/data/people.csv", "1,alice\n2,bob\n"),
        source("test/data/uk_cities.csv", "London,51.5,-0.1\nLeeds,53.8,-1.5\n"),
    ]
}

fn create_context() -> ExecutionContext<Builtin> {
    let mut ctx = ExecutionContext::new();
    ctx.define_schema("people", &people_schema());
    ctx.define_schema("uk_cities", &cities_schema());
    ctx
}

fn people_scan() -> LogicalPlan {
    LogicalPlan::TableScan { table_name: "people".to_string(), schema: people_schema() }
}

fn cities_scan() -> LogicalPlan {
    LogicalPlan::TableScan { table_name: "uk_cities".to_string(), schema: cities_schema() }
}

fn call(name: &str, args: Vec<Expr>) -> Expr {
    Expr::ScalarFunction { name: name.to_string(), args }
}

fn run(ctx: &ExecutionContext<Builtin>, plan: LogicalPlan) -> Vec<Result<Row, ExecutionError>> {
    DF { plan: Box::new(plan) }.execute(ctx, &sources()).unwrap()
}

fn people_rows() -> Vec<Result<Row, ExecutionError>> {
    vec![
        Ok(Row::new(vec![Value::UnsignedLong(1), Value::String("alice".to_string())])),
        Ok(Row::new(vec![Value::UnsignedLong(2), Value::String("bob".to_string())])),
    ]
}

fn text_of(v: &Value) -> String {
    match v {
        Value::UnsignedLong(n) => n.to_string(),
        Value::Double(bits) => f64::from_bits(*bits).to_string(),
        Value::String(s) => s.clone(),
        Value::Boolean(b) => b.to_string(),
        Value::Point(lat, lng) => {
            format!("POINT ({} {})", f64::from_bits(*lat), f64::from_bits(*lng))
        }
    }
}

fn lines(rows: &Vec<Result<Row, ExecutionError>>) -> String {
    let mut out = String::new();
    for r in rows {
        let row = r.as_ref().unwrap();
        out.push_str(&format_line(&row.values.iter().map(text_of).collect()));
    }
    out
}

#[test]
fn test_sqrt() {
    let mut ctx = create_context();
    ctx.define_function(Builtin::Sqrt);
    let plan = LogicalPlan::Projection {
        expr: vec![Expr::TupleValue(0), call("sqrt", vec![Expr::TupleValue(0)])],
        input: Box::new(people_scan()),
        schema: people_schema(),
    };
    let rows = run(&ctx, plan);
    assert_eq!(
        rows,
        vec![
            Ok(Row::new(vec![Value::UnsignedLong(1), Value::Double(1.0f64.to_bits())])),
            Ok(Row::new(vec![Value::UnsignedLong(2), Value::Double(2.0f64.sqrt().to_bits())])),
        ]
    );
}

#[test]
fn test_sql_udf_udt() {
    let mut ctx = create_context();
    ctx.define_function(Builtin::StPoint);
    let plan = LogicalPlan::Projection {
        expr: vec![call("ST_Point", vec![Expr::TupleValue(1), Expr::TupleValue(2)])],
        input: Box::new(cities_scan()),
        schema: cities_schema(),
    };
    let rows = run(&ctx, plan);
    assert_eq!(
        rows,
        vec![
            Ok(Row::new(vec![Value::Point(51.5f64.to_bits(), (-0.1f64).to_bits())])),
            Ok(Row::new(vec![Value::Point(53.8f64.to_bits(), (-1.5f64).to_bits())])),
        ]
    );
}

#[test]
fn test_df_udf_udt() {
    let mut ctx = create_context();
    ctx.define_function(Builtin::StPoint);
    let schema = Schema::new(vec![
        Field::new("city", DataType::String, false),
        Field::new("lat", DataType::Double, false),
        Field::new("lng", DataType::Double, false),
    ]);
    let df = ctx.load("test/data/uk_cities.csv", &schema).unwrap();
    let func_expr = ctx.udf("ST_Point", vec![df.col("lat").unwrap(), df.col("lng").unwrap()]);
    let df2 = df.select(vec![func_expr]).unwrap();
    let rows = df2.execute(&ctx, &sources()).unwrap();
    assert_eq!(lines(&rows), "POINT (51.5 -0.1)\nPOINT (53.8 -1.5)\n");
}

#[test]
fn test_chaining_functions() {
    let mut ctx = create_context();
    ctx.define_function(Builtin::StPoint);
    ctx.define_function(Builtin::StAsText);
    let plan = LogicalPlan::Projection {
        expr: vec![call(
            "ST_AsText",
            vec![call("ST_Point", vec![Expr::TupleValue(1), Expr::TupleValue(2)])],
        )],
        input: Box::new(cities_scan()),
        schema: cities_schema(),
    };
    let rows = run(&ctx, plan);
    assert_eq!(
        rows,
        vec![
            Ok(Row::new(vec![Value::String("POINT (51.5 -0.1)".to_string())])),
            Ok(Row::new(vec![Value::String("POINT (53.8 -1.5)".to_string())])),
        ]
    );
}

#[test]
fn point_then_text_is_one_point() {
    let mut ctx = create_context();
    ctx.define_function(Builtin::StPoint);
    ctx.define_function(Builtin::StAsText);
    let e = call(
        "st_astext",
        vec![call(
            "st_point",
            vec![
                Expr::Literal(Value::Double(51.5f64.to_bits())),
                Expr::Literal(Value::Double((-0.1f64).to_bits())),
            ],
        )],
    );
    let got = ctx.evaluate(&Row::new(vec![]), &Schema::new(vec![]), &e);
    assert_eq!(got, Ok(Value::String("POINT (51.5 -0.1)".to_string())));
}

#[test]
fn projection_of_first_column_reproduces_ids() {
    let ctx = create_context();
    let plan = LogicalPlan::Projection {
        expr: vec![Expr::TupleValue(0)],
        input: Box::new(people_scan()),
        schema: people_schema(),
    };
    let rows = run(&ctx, plan);
    assert_eq!(lines(&rows), "1\n2\n");
}

#[test]
fn filter_keeps_ids_greater_than_one() {
    let ctx = create_context();
    let plan = LogicalPlan::Selection {
        expr: Expr::BinaryExpr {
            left: Box::new(Expr::TupleValue(0)),
            op: Operator::Gt,
            right: Box::new(Expr::Literal(Value::UnsignedLong(1))),
        },
        input: Box::new(people_scan()),
        schema: people_schema(),
    };
    let rows = run(&ctx, plan);
    assert_eq!(lines(&rows), "2,bob\n");
}

#[test]
fn limit_one_yields_first_row() {
    let ctx = create_context();
    let plan =
        LogicalPlan::Limit { limit: 1, input: Box::new(people_scan()), schema: people_schema() };
    let rows = run(&ctx, plan);
    assert_eq!(rows.len(), 1);
    assert_eq!(lines(&rows), "1,alice\n");
}

#[test]
fn scanned_rows_match_their_schema() {
    let ctx = create_context();
    let rows = run(&ctx, cities_scan());
    assert_eq!(
        rows,
        vec![
            Ok(Row::new(vec![
                Value::String("London".to_string()),
                Value::Double(51.5f64.to_bits()),
                Value::Double((-0.1f64).to_bits()),
            ])),
            Ok(Row::new(vec![
                Value::String("Leeds".to_string()),
                Value::Double(53.8f64.to_bits()),
                Value::Double((-1.5f64).to_bits()),
            ])),
        ]
    );
    assert_eq!(run(&ctx, people_scan()), people_rows());
}

#[test]
fn filter_twice_is_filter_once() {
    let ctx = create_context();
    let schema = people_schema();
    let pred = Expr::BinaryExpr {
        left: Box::new(Expr::TupleValue(1)),
        op: Operator::Lt,
        right: Box::new(Expr::Literal(Value::String("b".to_string()))),
    };
    let mut input = people_rows();
    input.push(Err(ExecutionError::CsvError(2)));
    input.push(Ok(Row::new(vec![Value::UnsignedLong(3), Value::String("abe".to_string())])));
    let once = filter_rows(&ctx, &schema, &pred, &input);
    let twice = filter_rows(&ctx, &schema, &pred, &once);
    assert_eq!(
        once,
        vec![
            Ok(Row::new(vec![Value::UnsignedLong(1), Value::String("alice".to_string())])),
            Err(ExecutionError::CsvError(2)),
            Ok(Row::new(vec![Value::UnsignedLong(3), Value::String("abe".to_string())])),
        ]
    );
    assert_eq!(twice, once);
}

#[test]
fn projection_of_columns_is_positional() {
    let ctx = create_context();
    let exprs = vec![Expr::TupleValue(1), Expr::TupleValue(0), Expr::TupleValue(1)];
    let rows = project_rows(&ctx, &people_schema(), &exprs, &people_rows());
    assert_eq!(
        rows[1],
        Ok(Row::new(vec![
            Value::String("bob".to_string()),
            Value::UnsignedLong(2),
            Value::String("bob".to_string()),
        ]))
    );
    assert_eq!(rows.len(), 2);
}

#[test]
fn limit_yields_the_smaller_count() {
    let input = people_rows();
    assert_eq!(limit_rows(0, &input), vec![]);
    assert_eq!(limit_rows(1, &input), people_rows()[..1].to_vec_of_rows());
    assert_eq!(limit_rows(2, &input), people_rows());
    assert_eq!(limit_rows(7, &input), people_rows());
}

trait ToRows {
    fn to_vec_of_rows(&self) -> Vec<Result<Row, ExecutionError>>;
}

impl ToRows for [Result<Row, ExecutionError>] {
    fn to_vec_of_rows(&self) -> Vec<Result<Row, ExecutionError>> {
        self.iter()
            .map(|r| match r {
                Ok(row) => Ok(row.clone()),
                Err(e) => Err(e.clone()),
            })
            .collect()
    }
}

#[test]
fn evaluation_is_repeatable() {
    let mut ctx = create_context();
    ctx.define_function(Builtin::Sqrt);
    let row = Row::new(vec![Value::UnsignedLong(9), Value::String("x".to_string())]);
    let e = Expr::BinaryExpr {
        left: Box::new(call("SQRT", vec![Expr::TupleValue(0)])),
        op: Operator::Eq,
        right: Box::new(Expr::Literal(Value::Double(3.0f64.to_bits()))),
    };
    let first = ctx.evaluate(&row, &people_schema(), &e);
    let second = ctx.evaluate(&row, &people_schema(), &e);
    assert_eq!(first, Ok(Value::Boolean(true)));
    assert_eq!(first, second);
}

#[test]
fn unknown_function_is_not_a_failed_call() {
    let mut ctx = create_context();
    ctx.define_function(Builtin::Sqrt);
    let row = Row::new(vec![Value::String("x".to_string())]);
    let unknown = call("cbrt", vec![Expr::TupleValue(0)]);
    let failing = call("sqrt", vec![Expr::TupleValue(0)]);
    assert_eq!(
        ctx.evaluate(&row, &people_schema(), &unknown),
        Err(ExecutionError::UnknownFunction("cbrt".to_string()))
    );
    assert_eq!(ctx.evaluate(&row, &people_schema(), &failing), Err(ExecutionError::InvocationFailed));
    assert!(ctx.load_function_impl("Sqrt").is_ok());
    assert_eq!(
        ctx.load_function_impl("sqr").err(),
        Some(ExecutionError::UnknownFunction("sqr".to_string()))
    );
}

#[test]
fn later_registration_wins() {
    let mut ctx = create_context();
    ctx.define_function(Builtin::Sqrt);
    assert!(matches!(ctx.load_function_impl("sqrt"), Ok(Builtin::Sqrt)));
    ctx.define_function(Builtin::StPoint);
    assert!(matches!(ctx.load_function_impl("ST_POINT"), Ok(Builtin::StPoint)));
    assert!(matches!(ctx.load_function_impl("sqrt"), Ok(Builtin::Sqrt)));
    assert_eq!(ctx.functions[1].meta.name, "st_point");
    assert_eq!(ctx.functions[1].meta.return_type, DataType::Point);
}

#[test]
fn tables_are_found_by_name() {
    let mut ctx = create_context();
    assert_eq!(ctx.table_schema("people"), Some(people_schema()));
    assert_eq!(ctx.table_schema("nobody"), None);
    ctx.register_table("people".to_string(), cities_schema());
    assert_eq!(ctx.table_schema("people"), Some(cities_schema()));
}

#[test]
fn column_lookup_finds_first_of_name() {
    let schema = cities_schema();
    assert_eq!(schema.column("lat"), Some((1, Field::new("lat", DataType::Double, false))));
    assert_eq!(schema.column("height"), None);
    let df = DF { plan: Box::new(cities_scan()) };
    assert!(matches!(df.col("lng"), Ok(Expr::TupleValue(2))));
    assert!(matches!(df.col("nope"), Err(ExecutionError::InvalidColumn(name)) if name == "nope"));
    assert_eq!(df.schema(), cities_schema());
    let filtered = df.filter(Expr::Literal(Value::Boolean(true))).unwrap();
    assert!(matches!(*filtered.plan, LogicalPlan::Selection { .. }));
}

#[test]
fn comparisons_follow_the_scalar_order() {
    let two = Value::UnsignedLong(2);
    let three = Value::UnsignedLong(3);
    assert_eq!(compare_values(Operator::Lt, &two, &three), Ok(Value::Boolean(true)));
    assert_eq!(compare_values(Operator::GtEq, &two, &three), Ok(Value::Boolean(false)));
    assert_eq!(compare_values(Operator::LtEq, &two, &two), Ok(Value::Boolean(true)));
    assert_eq!(compare_values(Operator::NotEq, &two, &two), Ok(Value::Boolean(false)));
    let a = Value::String("apple".to_string());
    let b = Value::String("apples".to_string());
    assert_eq!(compare_values(Operator::Lt, &a, &b), Ok(Value::Boolean(true)));
    assert_eq!(compare_values(Operator::Gt, &a, &b), Ok(Value::Boolean(false)));
    assert_eq!(compare_values(Operator::Eq, &a, &a), Ok(Value::Boolean(true)));
    let f = Value::Boolean(false);
    let t = Value::Boolean(true);
    assert_eq!(compare_values(Operator::Lt, &f, &t), Ok(Value::Boolean(true)));
    assert_eq!(compare_values(Operator::Eq, &two, &a), Err(ExecutionError::TypeMismatch));
    let p = Value::Point(0, 0);
    assert_eq!(compare_values(Operator::Eq, &p, &f), Err(ExecutionError::TypeMismatch));
}

#[test]
fn text_order_is_lexical() {
    assert!(text_less("", "a"));
    assert!(!text_less("a", ""));
    assert!(!text_less("abc", "abc"));
    assert!(text_less("abc", "abd"));
    assert!(text_less("Zebra", "apple"));
    assert!(text_less("z", "\u{e9}"));
}

#[test]
fn doubles_compare_as_numbers() {
    let b = |x: f64| x.to_bits();
    assert!(doubles_less(b(-1.5), b(-0.1)));
    assert!(doubles_less(b(-0.1), b(51.5)));
    assert!(!doubles_less(b(51.5), b(-0.1)));
    assert!(!doubles_less(b(-0.0), b(0.0)));
    assert!(doubles_equal(b(-0.0), b(0.0)));
    assert!(doubles_less(b(f64::NEG_INFINITY), b(f64::MIN)));
    assert!(doubles_less(b(f64::MAX), b(f64::INFINITY)));
    assert!(!doubles_equal(b(f64::NAN), b(f64::NAN)));
    assert!(!doubles_less(b(f64::NAN), b(1.0)));
    assert!(!doubles_less(b(1.0), b(f64::NAN)));
    let nan = Value::Double(b(f64::NAN));
    assert_eq!(compare_values(Operator::NotEq, &nan, &nan), Ok(Value::Boolean(true)));
    assert_eq!(compare_values(Operator::LtEq, &nan, &nan), Ok(Value::Boolean(false)));
}

#[test]
fn records_are_read_without_a_header() {
    let records = read_records(b"1,alice\n2,bob\n");
    assert_eq!(
        records,
        vec![
            Ok(vec!["1".to_string(), "alice".to_string()]),
            Ok(vec!["2".to_string(), "bob".to_string()]),
        ]
    );
    let broken = read_records(b"1,alice\n2\n3,carol\n");
    assert_eq!(broken.len(), 3);
    assert_eq!(broken[1], Err(ExecutionError::CsvError(1)));
    assert_eq!(broken[2], Ok(vec!["3".to_string(), "carol".to_string()]));
    assert_eq!(read_records(b""), vec![]);
}

#[test]
fn records_that_do_not_fit_fail_in_place() {
    let schema = people_schema();
    let fields = |a: &str, b: &str| vec![a.to_string(), b.to_string()];
    assert_eq!(
        create_tuple(&schema, &fields("7", "x"), &vec![]),
        Ok(Row::new(vec![Value::UnsignedLong(7), Value::String("x".to_string())]))
    );
    assert_eq!(create_tuple(&schema, &fields("x", "7"), &vec![]), Err(ExecutionError::FieldParse(0)));
    assert_eq!(
        create_tuple(&schema, &vec!["7".to_string()], &vec![]),
        Err(ExecutionError::ArityMismatch)
    );
    let flags = Schema::new(vec![
        Field::new("id", DataType::UnsignedLong, false),
        Field::new("ok", DataType::Boolean, false),
    ]);
    assert_eq!(
        create_tuple(&flags, &fields("7", "true"), &vec![]),
        Err(ExecutionError::UnsupportedType(1))
    );
    let reals = Schema::new(vec![Field::new("x", DataType::Double, false)]);
    assert_eq!(
        create_tuple(&reals, &vec!["abc".to_string()], &vec![None]),
        Err(ExecutionError::FieldParse(0))
    );
    assert_eq!(
        create_tuple(&reals, &vec!["2.5".to_string()], &vec![Some(2.5f64.to_bits())]),
        Ok(Row::new(vec![Value::Double(2.5f64.to_bits())]))
    );
    let rows = scan_records(
        &schema,
        &vec![Ok(fields("1", "a")), Err(ExecutionError::CsvError(1)), Ok(fields("q", "b"))],
        &vec![],
    );
    assert_eq!(
        rows,
        vec![
            Ok(Row::new(vec![Value::UnsignedLong(1), Value::String("a".to_string())])),
            Err(ExecutionError::CsvError(1)),
            Err(ExecutionError::FieldParse(0)),
        ]
    );
}

#[test]
fn plans_that_do_not_compile_fail_before_any_row() {
    let ctx = create_context();
    let all = sources();
    assert!(matches!(
        ctx.create_execution_plan(LogicalPlan::EmptyRelation, &all),
        Err(ExecutionError::EmptyRelation)
    ));
    let missing = LogicalPlan::TableScan { table_name: "ghosts".to_string(), schema: people_schema() };
    assert!(matches!(ctx.create_execution_plan(missing, &all), Err(ExecutionError::IoError)));
    let file = LogicalPlan::CsvFile { filename: "nowhere.csv".to_string(), schema: people_schema() };
    let limited = LogicalPlan::Limit { limit: 3, input: Box::new(file), schema: people_schema() };
    assert!(matches!(ctx.create_execution_plan(limited, &all), Err(ExecutionError::IoError)));
    let literal = LogicalPlan::Projection {
        expr: vec![Expr::Literal(Value::UnsignedLong(1))],
        input: Box::new(people_scan()),
        schema: people_schema(),
    };
    assert!(matches!(
        ctx.create_execution_plan(literal, &all),
        Err(ExecutionError::UnsupportedProjection)
    ));
    let beyond = LogicalPlan::Projection {
        expr: vec![Expr::TupleValue(2)],
        input: Box::new(people_scan()),
        schema: people_schema(),
    };
    assert!(matches!(ctx.create_execution_plan(beyond, &all), Err(ExecutionError::ColumnOutOfRange)));
}

#[test]
fn projection_schema_is_derived_from_the_input() {
    let exprs = vec![Expr::TupleValue(1), call("sqrt", vec![Expr::TupleValue(0)])];
    let schema = derive_project_schema(&people_schema(), &exprs).unwrap();
    assert_eq!(
        schema,
        Schema::new(vec![
            Field::new("name", DataType::String, false),
            Field::new("sqrt", DataType::Double, true),
        ])
    );
    let ctx = create_context();
    let all = sources();
    let plan = LogicalPlan::Projection {
        expr: exprs,
        input: Box::new(people_scan()),
        schema: people_schema(),
    };
    let rel = ctx.create_execution_plan(plan, &all).unwrap();
    assert_eq!(rel.schema(), &schema);
    assert!(matches!(rel, SimpleRelation::Project(_)));
}

#[test]
fn row_failures_take_the_place_of_the_row() {
    let ctx = create_context();
    let schema = people_schema();
    let not_boolean = Expr::TupleValue(0);
    assert_eq!(
        filter_rows(&ctx, &schema, &not_boolean, &people_rows()),
        vec![Err(ExecutionError::NonBooleanPredicate), Err(ExecutionError::NonBooleanPredicate)]
    );
    let mismatch = Expr::BinaryExpr {
        left: Box::new(Expr::TupleValue(0)),
        op: Operator::Eq,
        right: Box::new(Expr::TupleValue(1)),
    };
    assert_eq!(
        filter_rows(&ctx, &schema, &mismatch, &people_rows()[..1].to_vec_of_rows()),
        vec![Err(ExecutionError::TypeMismatch)]
    );
    let beyond = vec![Expr::TupleValue(0), Expr::TupleValue(5)];
    assert_eq!(
        project_rows(&ctx, &schema, &beyond, &people_rows()[..1].to_vec_of_rows()),
        vec![Err(ExecutionError::ColumnOutOfRange)]
    );
    let row = Row::new(vec![]);
    assert_eq!(
        ctx.evaluate(&row, &schema, &Expr::TupleValue(0)),
        Err(ExecutionError::ColumnOutOfRange)
    );
}

#[test]
fn sources_are_found_by_path() {
    assert_eq!(table_path("people"), "test/data/people.csv");
    let all = sources();
    assert_eq!(find_source(&all, "test/data/uk_cities.csv").map(|s| s.data.len()), Some(33));
    assert!(find_source(&all, "people").is_none());
    let rel = CsvRelation::open(&all[0], people_schema()).unwrap();
    assert_eq!(rel.collect(), people_rows());
    assert_eq!(rel.schema(), &people_schema());
}

#[test]
fn lines_are_comma_joined() {
    assert_eq!(format_line(&vec!["1".to_string(), "alice".to_string()]), "1,alice\n");
    assert_eq!(format_line(&vec!["x".to_string()]), "x\n");
    assert_eq!(format_line(&vec![]), "\n");
}

#[test]
fn execution_plans_carry_their_plan() {
    let plan = ExecutionPlan::Partition {
        plan: people_scan(),
        partition_count: 4,
        partition_expr: Expr::TupleValue(0),
    };
    assert!(matches!(plan, ExecutionPlan::Partition { partition_count: 4, .. }));
    assert!(matches!(
        ExecutionPlan::Interactive { plan: LogicalPlan::EmptyRelation },
        ExecutionPlan::Interactive { plan: LogicalPlan::EmptyRelation }
    ));
}

#[test]
fn scans_of_unreadable_columns_do_not_compile() {
    let ctx = create_context();
    let all = sources();
    let flags = Schema::new(vec![
        Field::new("id", DataType::UnsignedLong, false),
        Field::new("ok", DataType::Boolean, false),
    ]);
    let plan = LogicalPlan::TableScan { table_name: "people".to_string(), schema: flags };
    assert!(matches!(
        ctx.create_execution_plan(plan, &all),
        Err(ExecutionError::UnsupportedType(1))
    ));
    let points = Schema::new(vec![Field::new("p", DataType::Point, false)]);
    assert!(matches!(
        open_scan(&all, "nowhere.csv", points),
        Err(ExecutionError::IoError)
    ));
    assert!(open_scan(&all, "test/data/people.csv", people_schema()).is_ok());
}

#[test]
fn plans_name_the_path_they_scan() {
    assert_eq!(scan_path(&LogicalPlan::EmptyRelation), None);
    assert_eq!(scan_path(&people_scan()), Some("test/data/people.csv".to_string()));
    let file = LogicalPlan::CsvFile { filename: "a/b.csv".to_string(), schema: people_schema() };
    let limited = LogicalPlan::Limit { limit: 3, input: Box::new(file), schema: people_schema() };
    assert_eq!(scan_path(&limited), Some("a/b.csv".to_string()));
}

#[test]
fn streams_yield_one_item_per_pull() {
    let ctx = create_context();
    let all = sources();
    let plan = LogicalPlan::Selection {
        expr: Expr::BinaryExpr {
            left: Box::new(Expr::TupleValue(0)),
            op: Operator::GtEq,
            right: Box::new(Expr::Literal(Value::UnsignedLong(2))),
        },
        input: Box::new(LogicalPlan::TableScan {
            table_name: "people".to_string(),
            schema: people_schema(),
        }),
        schema: people_schema(),
    };
    let rel = ctx.create_execution_plan(plan, &all).unwrap();
    let stream = rel.scan(&ctx);
    let (first, stream) = stream.pull(&ctx);
    assert_eq!(
        first,
        Some(Ok(Row::new(vec![Value::UnsignedLong(2), Value::String("bob".to_string())])))
    );
    let (second, stream) = stream.pull(&ctx);
    assert_eq!(second, None);
    let (third, _) = stream.pull(&ctx);
    assert_eq!(third, None);
}

#[test]
fn a_spent_limit_leaves_its_input_alone() {
    let ctx = create_context();
    let all = sources();
    let plan =
        LogicalPlan::Limit { limit: 1, input: Box::new(people_scan()), schema: people_schema() };
    let rel = ctx.create_execution_plan(plan, &all).unwrap();
    let stream = rel.scan(&ctx);
    let (first, stream) = stream.pull(&ctx);
    assert_eq!(first, people_rows().into_iter().next());
    let (second, stream) = stream.pull(&ctx);
    assert_eq!(second, None);
    match stream {
        RowStream::Limit { input, left } => {
            assert_eq!(left, 0);
            assert!(matches!(*input, RowStream::Scan { position: 1, .. }));
        }
        _ => panic!("a limit stays a limit"),
    }
    let project = LogicalPlan::Projection {
        expr: vec![Expr::TupleValue(1)],
        input: Box::new(people_scan()),
        schema: people_schema(),
    };
    let rel = ctx.create_execution_plan(project, &all).unwrap();
    let (item, _) = rel.scan(&ctx).pull(&ctx);
    assert_eq!(item, Some(Ok(Row::new(vec![Value::String("alice".to_string())]))));
}

#[test]
fn unsigned_fields_are_decimal_numbers() {
    let ids = Schema::new(vec![Field::new("id", DataType::UnsignedLong, false)]);
    let read = |text: &str| create_tuple(&ids, &vec![text.to_string()], &vec![]);
    assert_eq!(read("+5"), Ok(Row::new(vec![Value::UnsignedLong(5)])));
    assert_eq!(read("007"), Ok(Row::new(vec![Value::UnsignedLong(7)])));
    assert_eq!(
        read("18446744073709551615"),
        Ok(Row::new(vec![Value::UnsignedLong(u64::MAX)]))
    );
    assert_eq!(read("18446744073709551616"), Err(ExecutionError::FieldParse(0)));
    assert_eq!(read(""), Err(ExecutionError::FieldParse(0)));
    assert_eq!(read("+"), Err(ExecutionError::FieldParse(0)));
    assert_eq!(read("-1"), Err(ExecutionError::FieldParse(0)));
    assert_eq!(read(" 1"), Err(ExecutionError::FieldParse(0)));
    assert_eq!(read("1.0"), Err(ExecutionError::FieldParse(0)));
}

#[test]
fn points_compare_by_latitude_then_longitude() {
    let point = |lat: f64, lng: f64| Value::Point(lat.to_bits(), lng.to_bits());
    let london = point(51.5, -0.1);
    let leeds = point(53.8, -1.5);
    let east = point(51.5, 0.2);
    let check = |op: Operator, l: &Value, r: &Value, expected: bool| {
        assert_eq!(compare_values(op, l, r), Ok(Value::Boolean(expected)));
    };
    check(Operator::Eq, &london, &point(51.5, -0.1), true);
    check(Operator::Eq, &point(1.0, 2.0), &point(1.0, 2.0), true);
    check(Operator::NotEq, &london, &point(51.5, -0.1), false);
    check(Operator::Eq, &london, &leeds, false);
    check(Operator::NotEq, &london, &leeds, true);
    check(Operator::Lt, &london, &leeds, true);
    check(Operator::GtEq, &london, &leeds, false);
    check(Operator::Gt, &leeds, &london, true);
    check(Operator::Lt, &london, &east, true);
    check(Operator::LtEq, &east, &london, false);
    check(Operator::LtEq, &london, &london, true);
    check(Operator::GtEq, &london, &london, true);
    check(Operator::Eq, &point(0.0, -0.0), &point(-0.0, 0.0), true);
    let nowhere = point(f64::NAN, 0.0);
    check(Operator::Eq, &nowhere, &nowhere, false);
    check(Operator::NotEq, &nowhere, &nowhere, true);
    check(Operator::Lt, &nowhere, &london, false);
    check(Operator::GtEq, &nowhere, &london, false);
    let ctx = create_context();
    let e = Expr::BinaryExpr {
        left: Box::new(Expr::Literal(point(1.0, 2.0))),
        op: Operator::Eq,
        right: Box::new(Expr::Literal(point(1.0, 2.0))),
    };
    assert_eq!(ctx.evaluate(&Row::new(vec![]), &people_schema(), &e), Ok(Value::Boolean(true)));
}

#[test]
fn operators_agree_on_one_order() {
    let pairs = vec![
        (Value::UnsignedLong(1), Value::UnsignedLong(2)),
        (Value::UnsignedLong(2), Value::UnsignedLong(2)),
        (Value::String("b".to_string()), Value::String("ab".to_string())),
        (Value::String("".to_string()), Value::String("".to_string())),
        (Value::Boolean(true), Value::Boolean(false)),
        (Value::Double(1.5f64.to_bits()), Value::Double((-2.0f64).to_bits())),
        (
            Value::Point(1.0f64.to_bits(), 2.0f64.to_bits()),
            Value::Point(1.0f64.to_bits(), 3.0f64.to_bits()),
        ),
    ];
    let truth = |op: Operator, l: &Value, r: &Value| match compare_values(op, l, r) {
        Ok(Value::Boolean(b)) => b,
        other => panic!("no boolean: {:?}", other),
    };
    for (l, r) in pairs.iter() {
        assert_eq!(truth(Operator::NotEq, l, r), !truth(Operator::Eq, l, r));
        assert_eq!(truth(Operator::GtEq, l, r), !truth(Operator::Lt, l, r));
        assert_eq!(truth(Operator::LtEq, l, r), !truth(Operator::Gt, l, r));
        assert_eq!(truth(Operator::Gt, l, r), truth(Operator::Lt, r, l));
    }
}

#[test]
fn values_without_floats_have_a_text() {
    assert_eq!(Value::UnsignedLong(0).plain_text(), Some("0".to_string()));
    assert_eq!(Value::UnsignedLong(1070).plain_text(), Some("1070".to_string()));
    assert_eq!(
        Value::UnsignedLong(u64::MAX).plain_text(),
        Some("18446744073709551615".to_string())
    );
    assert_eq!(Value::String("a,b".to_string()).plain_text(), Some("a,b".to_string()));
    assert_eq!(Value::Boolean(true).plain_text(), Some("true".to_string()));
    assert_eq!(Value::Boolean(false).plain_text(), Some("false".to_string()));
    assert_eq!(Value::Double(0).plain_text(), None);
    assert_eq!(Value::Point(0, 0).plain_text(), None);
}

#[test]
fn a_filter_pulls_only_what_it_needs() {
    let ctx = create_context();
    let all = vec![source("test/data/people.csv", "1,a\n2,b\n3,c\n4,d\n")];
    let plan = LogicalPlan::Selection {
        expr: Expr::BinaryExpr {
            left: Box::new(Expr::TupleValue(0)),
            op: Operator::GtEq,
            right: Box::new(Expr::Literal(Value::UnsignedLong(2))),
        },
        input: Box::new(people_scan()),
        schema: people_schema(),
    };
    let rel = ctx.create_execution_plan(plan, &all).unwrap();
    let (first, stream) = rel.scan(&ctx).pull(&ctx);
    assert_eq!(
        first,
        Some(Ok(Row::new(vec![Value::UnsignedLong(2), Value::String("b".to_string())])))
    );
    match &stream {
        RowStream::Filter { input, .. } => {
            assert!(matches!(**input, RowStream::Scan { position: 2, .. }))
        }
        _ => panic!("a filter stays a filter"),
    }
    let (second, stream) = stream.pull(&ctx);
    assert_eq!(
        second,
        Some(Ok(Row::new(vec![Value::UnsignedLong(3), Value::String("c".to_string())])))
    );
    match &stream {
        RowStream::Filter { input, .. } => {
            assert!(matches!(**input, RowStream::Scan { position: 3, .. }))
        }
        _ => panic!("a filter stays a filter"),
    }
}

#[test]
fn a_handle_can_be_cloned_and_used_twice() {
    let ctx = create_context();
    let df = DF { plan: Box::new(people_scan()) };
    let first = df.clone().select(vec![Expr::TupleValue(0)]).unwrap();
    let second = df.select(vec![Expr::TupleValue(1)]).unwrap();
    let again = second.clone();
    assert_eq!(lines(&first.execute(&ctx, &sources()).unwrap()), "1\n2\n");
    assert_eq!(lines(&second.execute(&ctx, &sources()).unwrap()), "alice\nbob\n");
    assert_eq!(lines(&again.execute(&ctx, &sources()).unwrap()), "alice\nbob\n");
    let call = Expr::ScalarFunction {
        name: "f".to_string(),
        args: vec![Expr::Literal(Value::String("x".to_string())), Expr::TupleValue(3)],
    };
    match call.clone() {
        Expr::ScalarFunction { name, args } => {
            assert_eq!(name, "f");
            assert!(matches!(&args[0], Expr::Literal(Value::String(s)) if s == "x"));
            assert!(matches!(args[1], Expr::TupleValue(3)));
            assert_eq!(args.len(), 2);
        }
        _ => panic!("a copy of a call is a call"),
    }
}
