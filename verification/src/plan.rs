use vstd::prelude::*;
use vstd::string::StringExecFns;
use crate::context::{same_expr_evaluates_alike, same_exprs_evaluate_alike, ExecutionContext};
use crate::error::ExecutionError;
use crate::expr::{same_expr, same_exprs, same_plan, Expr, LogicalPlan, ScalarFunction};
use crate::relation::{
    filter_model, limit_model, project_item, project_model, scan_model, CsvRelation,
    FilterRelation, LimitRelation, ProjectRelation, SimpleRelation, Source,
};
use crate::source::{records_of, RowModel};
use crate::schema::{DataType, Field, FieldModel, Schema};

verus! {

/// Where the data of a table lies: by convention under `test/data`, in a file
/// that is named after the table.
pub open spec fn table_path_model(table_name: Seq<char>) -> Seq<char> {
    "test/data/"@ + table_name + ".csv"@
}

/// The path of the resource that backs a table.
pub fn table_path(table_name: &str) -> (path: String)
    ensures
        path@ == table_path_model(table_name@),
{
    String::from_str("test/data/").concat(table_name).concat(".csv")
}

/// The paths of the sources, in their order.
pub open spec fn source_paths(sources: Seq<Source>) -> Seq<Seq<char>> {
    Seq::new(sources.len(), |i: int| sources[i].path@)
}

/// The first position at or after `from` that holds `path`.
pub open spec fn first_path(paths: Seq<Seq<char>>, path: Seq<char>, from: int) -> Option<int>
    decreases paths.len() - from,
{
    if from < 0 || from >= paths.len() {
        None
    } else if paths[from] == path {
        Some(from)
    } else {
        first_path(paths, path, from + 1)
    }
}

/// Finds the source that lies at a path: the first, if there are several.
pub fn find_source<'a>(sources: &'a Vec<Source>, path: &str) -> (found: Option<&'a Source>)
    ensures
        match found {
            Some(s) => first_path(source_paths(sources@), path@, 0) is Some && *s == sources@[first_path(
                source_paths(sources@),
                path@,
                0,
            ).unwrap()],
            None => first_path(source_paths(sources@), path@, 0) is None,
        },
{
    let wanted: String = String::from_str(path);
    let mut i: usize = 0;
    while i < sources.len()
        invariant
            i <= sources@.len(),
            wanted@ == path@,
            first_path(source_paths(sources@), path@, 0) == first_path(
                source_paths(sources@),
                path@,
                i as int,
            ),
        decreases sources@.len() - i,
    {
        if sources[i].path == wanted {
            return Some(&sources[i]);
        }
        i += 1;
    }
    None
}

/// Whether a scan can read a column of this type from a source.
pub open spec fn readable(data_type: DataType) -> bool {
    data_type == DataType::UnsignedLong || data_type == DataType::Double || data_type
        == DataType::String
}

/// The first column at or after `from` whose type no scan can read.
pub open spec fn first_unreadable(schema: Seq<FieldModel>, from: int) -> Option<int>
    decreases schema.len() - from,
{
    if from < 0 || from >= schema.len() {
        None
    } else if !readable(schema[from].data_type) {
        Some(from)
    } else {
        first_unreadable(schema, from + 1)
    }
}

/// Why a scan of the source at `path` under `schema` cannot be set up, if it
/// cannot: no source lies at the path, or the schema has a column that no
/// scan can read.
pub open spec fn scan_failure(paths: Seq<Seq<char>>, path: Seq<char>, schema: Seq<FieldModel>)
    -> Option<ExecutionError> {
    if first_path(paths, path, 0) is None {
        Some(ExecutionError::IoError)
    } else {
        match first_unreadable(schema, 0) {
            Some(c) => Some(ExecutionError::UnsupportedType(c as usize)),
            None => None,
        }
    }
}

/// Sets up the scan of the source at a path.
pub fn open_scan<'a>(sources: &'a Vec<Source>, path: &str, schema: Schema) -> (result: Result<
    CsvRelation<'a>,
    ExecutionError,
>)
    ensures
        match result {
            Ok(r) => {
                &&& scan_failure(source_paths(sources@), path@, schema@) is None
                &&& r.schema == schema
                &&& first_path(source_paths(sources@), path@, 0) matches Some(i)
                &&& *r.source == sources@[i]
            },
            Err(e) => scan_failure(source_paths(sources@), path@, schema@) == Some(e),
        },
{
    let source = match find_source(sources, path) {
        None => {
            return Err(ExecutionError::IoError);
        },
        Some(source) => source,
    };
    let mut i: usize = 0;
    while i < schema.columns.len()
        invariant
            i <= schema.columns@.len(),
            schema.columns@.len() == schema@.len(),
            first_path(source_paths(sources@), path@, 0) is Some,
            first_unreadable(schema@, 0) == first_unreadable(schema@, i as int),
        decreases schema.columns@.len() - i,
    {
        match schema.columns[i].data_type {
            DataType::UnsignedLong => {},
            DataType::Double => {},
            DataType::String => {},
            _ => {
                return Err(ExecutionError::UnsupportedType(i));
            },
        }
        i += 1;
    }
    CsvRelation::open(source, schema)
}

/// The output column of one expression of a projection: a column reference
/// gives the input's column at that position, and a function call gives a
/// nullable column of the function's name and of type double. No other
/// expression has an output column.
pub open spec fn project_field(input: Seq<FieldModel>, e: Expr) -> Result<
    FieldModel,
    ExecutionError,
> {
    match e {
        Expr::TupleValue(i) => if i < input.len() {
            Ok(input[i as int])
        } else {
            Err(ExecutionError::ColumnOutOfRange)
        },
        Expr::ScalarFunction { name, args } => Ok(
            FieldModel { name: name@, data_type: DataType::Double, nullable: true },
        ),
        _ => Err(ExecutionError::UnsupportedProjection),
    }
}

/// The output columns of the first `n` expressions of a projection, or the
/// failure of the first expression that has none.
pub open spec fn project_schema(input: Seq<FieldModel>, exprs: Seq<Expr>, n: nat) -> Result<
    Seq<FieldModel>,
    ExecutionError,
>
    decreases n,
{
    if n == 0 || n > exprs.len() {
        Ok(Seq::empty())
    } else {
        match project_schema(input, exprs, (n - 1) as nat) {
            Err(e) => Err(e),
            Ok(columns) => match project_field(input, exprs[n - 1]) {
                Err(e) => Err(e),
                Ok(f) => Ok(columns.push(f)),
            },
        }
    }
}

/// The schema of a projection has one column per expression, so a projected
/// row has one value per column of it.
pub proof fn project_schema_has_one_column_per_expression(
    input: Seq<FieldModel>,
    exprs: Seq<Expr>,
    n: nat,
)
    requires
        n <= exprs.len(),
    ensures
        project_schema(input, exprs, n) matches Ok(columns) ==> columns.len() == n,
    decreases n,
{
    if n > 0 {
        project_schema_has_one_column_per_expression(input, exprs, (n - 1) as nat);
    }
}

/// Once an expression has no output column, the ones after it change nothing.
pub proof fn project_schema_fails(input: Seq<FieldModel>, exprs: Seq<Expr>, n: nat, m: nat)
    requires
        n <= m <= exprs.len(),
        project_schema(input, exprs, n) is Err,
    ensures
        project_schema(input, exprs, m) == project_schema(input, exprs, n),
    decreases m,
{
    if n < m {
        project_schema_fails(input, exprs, n, (m - 1) as nat);
    }
}

/// Derives the schema of a projection from the schema of its input.
pub fn derive_project_schema(input: &Schema, exprs: &Vec<Expr>) -> (result: Result<
    Schema,
    ExecutionError,
>)
    ensures
        match result {
            Ok(s) => project_schema(input@, exprs@, exprs@.len()) == Ok::<
                Seq<FieldModel>,
                ExecutionError,
            >(s@),
            Err(e) => project_schema(input@, exprs@, exprs@.len()) == Err::<
                Seq<FieldModel>,
                ExecutionError,
            >(e),
        },
{
    let mut columns: Vec<Field> = Vec::new();
    let mut i: usize = 0;
    assert(Seq::new(columns@.len(), |k: int| columns@[k]@) =~= Seq::<FieldModel>::empty());
    while i < exprs.len()
        invariant
            i <= exprs@.len(),
            input.columns@.len() == input@.len(),
            project_schema(input@, exprs@, i as nat) == Ok::<Seq<FieldModel>, ExecutionError>(
                Seq::new(columns@.len(), |k: int| columns@[k]@),
            ),
        decreases exprs@.len() - i,
    {
        let ghost before = Seq::new(columns@.len(), |k: int| columns@[k]@);
        let item: Result<Field, ExecutionError> = match &exprs[i] {
            Expr::TupleValue(c) => {
                if *c < input.columns.len() {
                    Ok(input.columns[*c].clone())
                } else {
                    Err(ExecutionError::ColumnOutOfRange)
                }
            },
            Expr::ScalarFunction { name, args } => Ok(
                Field { name: name.clone(), data_type: DataType::Double, nullable: true },
            ),
            _ => Err(ExecutionError::UnsupportedProjection),
        };
        match item {
            Ok(f) => {
                columns.push(f);
                assert(Seq::new(columns@.len(), |k: int| columns@[k]@) =~= before.push(f@));
            },
            Err(e) => {
                proof {
                    project_schema_fails(input@, exprs@, i as nat + 1, exprs@.len());
                }
                return Err(e);
            },
        }
        i += 1;
    }
    Ok(Schema::new(columns))
}

/// The schema of the relation that a plan compiles to.
pub open spec fn plan_schema(plan: &LogicalPlan) -> Seq<FieldModel>
    decreases plan,
{
    match plan {
        LogicalPlan::EmptyRelation => Seq::empty(),
        LogicalPlan::TableScan { table_name, schema } => schema@,
        LogicalPlan::CsvFile { filename, schema } => schema@,
        LogicalPlan::Selection { expr, input, schema } => schema@,
        LogicalPlan::Projection { expr, input, schema } => match project_schema(
            plan_schema(input),
            expr@,
            expr@.len(),
        ) {
            Ok(columns) => columns,
            Err(_) => Seq::empty(),
        },
        LogicalPlan::Limit { limit, input, schema } => schema@,
    }
}

/// Why a plan does not compile, if it does not. Inputs are compiled before
/// the operators over them, so the failure of an input comes first.
pub open spec fn compile_failure(plan: &LogicalPlan, paths: Seq<Seq<char>>) -> Option<
    ExecutionError,
>
    decreases plan,
{
    match plan {
        LogicalPlan::EmptyRelation => Some(ExecutionError::EmptyRelation),
        LogicalPlan::TableScan { table_name, schema } => scan_failure(
            paths,
            table_path_model(table_name@),
            schema@,
        ),
        LogicalPlan::CsvFile { filename, schema } => scan_failure(paths, filename@, schema@),
        LogicalPlan::Selection { expr, input, schema } => compile_failure(input, paths),
        LogicalPlan::Projection { expr, input, schema } => match compile_failure(input, paths) {
            Some(e) => Some(e),
            None => match project_schema(plan_schema(input), expr@, expr@.len()) {
                Err(e) => Some(e),
                Ok(_) => None,
            },
        },
        LogicalPlan::Limit { limit, input, schema } => compile_failure(input, paths),
    }
}

/// Whether a relation is what a plan compiles to over the given sources:
/// operator for operator the same tree, each scan bound to the source at its path.
pub open spec fn compiles_to(plan: &LogicalPlan, rel: &SimpleRelation, sources: Seq<Source>) -> bool
    decreases plan,
{
    match plan {
        LogicalPlan::EmptyRelation => false,
        LogicalPlan::TableScan { table_name, schema } => {
            &&& rel matches SimpleRelation::Csv(r)
            &&& r.schema@ == schema@
            &&& first_path(source_paths(sources), table_path_model(table_name@), 0) matches Some(i)
            &&& *r.source == sources[i]
        },
        LogicalPlan::CsvFile { filename, schema } => {
            &&& rel matches SimpleRelation::Csv(r)
            &&& r.schema@ == schema@
            &&& first_path(source_paths(sources), filename@, 0) matches Some(i)
            &&& *r.source == sources[i]
        },
        LogicalPlan::Selection { expr, input, schema } => {
            &&& rel matches SimpleRelation::Filter(r)
            &&& r.expr == *expr
            &&& r.schema@ == schema@
            &&& compiles_to(input, &*r.input, sources)
        },
        LogicalPlan::Projection { expr, input, schema } => {
            &&& rel matches SimpleRelation::Project(r)
            &&& r.expr == *expr
            &&& project_schema(plan_schema(input), expr@, expr@.len()) == Ok::<
                Seq<FieldModel>,
                ExecutionError,
            >(r.schema@)
            &&& compiles_to(input, &*r.input, sources)
        },
        LogicalPlan::Limit { limit, input, schema } => {
            &&& rel matches SimpleRelation::Limit(r)
            &&& r.limit == *limit
            &&& r.schema@ == schema@
            &&& compiles_to(input, &*r.input, sources)
        },
    }
}

impl<F: ScalarFunction> ExecutionContext<F> {
    /// Compiles a plan into an executable relation, inputs first. A scan is
    /// bound to the source that lies at its path; it fails where there is
    /// none, or where its schema has a column that no scan can read. A plan
    /// without a relation does not compile. The schema of a
    /// projection is derived from its expressions and the schema of its input.
    pub fn create_execution_plan<'a>(&self, plan: LogicalPlan, sources: &'a Vec<Source>) -> (result:
        Result<SimpleRelation<'a>, ExecutionError>)
        ensures
            match result {
                Ok(rel) => {
                    &&& compile_failure(&plan, source_paths(sources@)) is None
                    &&& compiles_to(&plan, &rel, sources@)
                    &&& rel.schema_model() == plan_schema(&plan)
                },
                Err(e) => compile_failure(&plan, source_paths(sources@)) == Some(e),
            },
        decreases plan,
    {
        match plan {
            LogicalPlan::EmptyRelation => Err(ExecutionError::EmptyRelation),
            LogicalPlan::TableScan { table_name, schema } => {
                let path = table_path(table_name.as_str());
                match open_scan(sources, path.as_str(), schema) {
                    Err(e) => Err(e),
                    Ok(rel) => Ok(SimpleRelation::Csv(rel)),
                }
            },
            LogicalPlan::CsvFile { filename, schema } => {
                match open_scan(sources, filename.as_str(), schema) {
                    Err(e) => Err(e),
                    Ok(rel) => Ok(SimpleRelation::Csv(rel)),
                }
            },
            LogicalPlan::Selection { expr, input, schema } => {
                match self.create_execution_plan(*input, sources) {
                    Err(e) => Err(e),
                    Ok(input_rel) => Ok(
                        SimpleRelation::Filter(
                            FilterRelation { schema, input: Box::new(input_rel), expr },
                        ),
                    ),
                }
            },
            LogicalPlan::Projection { expr, input, schema } => {
                match self.create_execution_plan(*input, sources) {
                    Err(e) => Err(e),
                    Ok(input_rel) => match derive_project_schema(input_rel.schema(), &expr) {
                        Err(e) => Err(e),
                        Ok(project_schema) => Ok(
                            SimpleRelation::Project(
                                ProjectRelation {
                                    schema: project_schema,
                                    input: Box::new(input_rel),
                                    expr,
                                },
                            ),
                        ),
                    },
                }
            },
            LogicalPlan::Limit { limit, input, schema } => {
                match self.create_execution_plan(*input, sources) {
                    Err(e) => Err(e),
                    Ok(input_rel) => Ok(
                        SimpleRelation::Limit(
                            LimitRelation { schema, input: Box::new(input_rel), limit },
                        ),
                    ),
                }
            },
        }
    }
}

/// A plan as it is handed to a worker for execution.
#[derive(Debug)]
pub enum ExecutionPlan {
    /// Run a query and return the results to the client.
    Interactive { plan: LogicalPlan },
    /// Partition the relation.
    Partition { plan: LogicalPlan, partition_count: usize, partition_expr: Expr },
}

/// The rows of the source that lies at a path, read under a schema; none
/// where no source lies there.
pub open spec fn source_rows(sources: Seq<Source>, path: Seq<char>, schema: Seq<FieldModel>) -> Seq<
    RowModel,
> {
    match first_path(source_paths(sources), path, 0) {
        Some(i) => scan_model(schema, records_of(sources[i].data@), sources[i].doubles@),
        None => Seq::empty(),
    }
}

/// The rows that a plan describes over the given sources.
pub open spec fn plan_rows<F: ScalarFunction>(
    ctx: &ExecutionContext<F>,
    plan: &LogicalPlan,
    sources: Seq<Source>,
) -> Seq<RowModel>
    decreases plan,
{
    match plan {
        LogicalPlan::EmptyRelation => Seq::empty(),
        LogicalPlan::TableScan { table_name, schema } => source_rows(
            sources,
            table_path_model(table_name@),
            schema@,
        ),
        LogicalPlan::CsvFile { filename, schema } => source_rows(sources, filename@, schema@),
        LogicalPlan::Selection { expr, input, schema } => filter_model(
            ctx,
            expr,
            plan_rows(ctx, input, sources),
        ),
        LogicalPlan::Projection { expr, input, schema } => project_model(
            ctx,
            expr@,
            plan_rows(ctx, input, sources),
        ),
        LogicalPlan::Limit { limit, input, schema } => limit_model(
            *limit,
            plan_rows(ctx, input, sources),
        ),
    }
}

/// The relation that a plan compiles to produces the rows that the plan describes.
pub proof fn compiled_relation_produces_plan_rows<F: ScalarFunction>(
    ctx: &ExecutionContext<F>,
    plan: &LogicalPlan,
    rel: &SimpleRelation,
    sources: Seq<Source>,
)
    requires
        compiles_to(plan, rel, sources),
    ensures
        rel.output(ctx) == plan_rows(ctx, plan, sources),
    decreases plan,
{
    match plan {
        LogicalPlan::Selection { expr, input, schema } => {
            if let SimpleRelation::Filter(r) = rel {
                compiled_relation_produces_plan_rows(ctx, input, &*r.input, sources);
            }
        },
        LogicalPlan::Projection { expr, input, schema } => {
            if let SimpleRelation::Project(r) = rel {
                compiled_relation_produces_plan_rows(ctx, input, &*r.input, sources);
            }
        },
        LogicalPlan::Limit { limit, input, schema } => {
            if let SimpleRelation::Limit(r) = rel {
                compiled_relation_produces_plan_rows(ctx, input, &*r.input, sources);
            }
        },
        _ => {},
    }
}

/// The path of the resource that a plan scans; a plan without a relation scans none.
pub open spec fn plan_path(plan: &LogicalPlan) -> Option<Seq<char>>
    decreases plan,
{
    match plan {
        LogicalPlan::EmptyRelation => None,
        LogicalPlan::TableScan { table_name, schema } => Some(table_path_model(table_name@)),
        LogicalPlan::CsvFile { filename, schema } => Some(filename@),
        LogicalPlan::Selection { expr, input, schema } => plan_path(input),
        LogicalPlan::Projection { expr, input, schema } => plan_path(input),
        LogicalPlan::Limit { limit, input, schema } => plan_path(input),
    }
}

/// The path of the resource that has to be at hand before a plan is compiled.
pub fn scan_path(plan: &LogicalPlan) -> (path: Option<String>)
    ensures
        match path {
            Some(p) => plan_path(plan) == Some(p@),
            None => plan_path(plan) is None,
        },
    decreases plan,
{
    match plan {
        LogicalPlan::EmptyRelation => None,
        LogicalPlan::TableScan { table_name, schema } => Some(table_path(table_name.as_str())),
        LogicalPlan::CsvFile { filename, schema } => Some(filename.clone()),
        LogicalPlan::Selection { expr, input, schema } => scan_path(input),
        LogicalPlan::Projection { expr, input, schema } => scan_path(input),
        LogicalPlan::Limit { limit, input, schema } => scan_path(input),
    }
}

/// A plan fails for want of a resource exactly when it scans a path at which
/// no source lies.
pub proof fn missing_source_fails_compilation(plan: &LogicalPlan, paths: Seq<Seq<char>>)
    ensures
        compile_failure(plan, paths) == Some(ExecutionError::IoError) <==> (plan_path(plan)
            matches Some(p) && first_path(paths, p, 0) is None),
    decreases plan,
{
    match plan {
        LogicalPlan::Selection { expr, input, schema } => {
            missing_source_fails_compilation(input, paths);
        },
        LogicalPlan::Projection { expr, input, schema } => {
            missing_source_fails_compilation(input, paths);
            lemma_project_schema_errors(plan_schema(input), expr@, expr@.len());
        },
        LogicalPlan::Limit { limit, input, schema } => {
            missing_source_fails_compilation(input, paths);
        },
        _ => {},
    }
}

/// A projection's schema fails only for a column out of range or an
/// expression without an output column.
proof fn lemma_project_schema_errors(input: Seq<FieldModel>, exprs: Seq<Expr>, n: nat)
    ensures
        project_schema(input, exprs, n) matches Err(e) ==> e == ExecutionError::ColumnOutOfRange
            || e == ExecutionError::UnsupportedProjection,
    decreases n,
{
    if n > 0 {
        lemma_project_schema_errors(input, exprs, (n - 1) as nat);
    }
}

/// Copies of a projection's expressions give the same schema.
proof fn lemma_same_project_schema(input: Seq<FieldModel>, xs: Seq<Expr>, ys: Seq<Expr>, n: nat)
    requires
        same_exprs(xs, ys),
        n <= xs.len(),
    ensures
        project_schema(input, xs, n) == project_schema(input, ys, n),
    decreases n,
{
    if n > 0 {
        lemma_same_project_schema(input, xs, ys, (n - 1) as nat);
        assert(same_expr(&xs[n - 1], &ys[n - 1]));
    }
}

/// A copy of a predicate filters as the predicate does.
proof fn lemma_same_filter<F: ScalarFunction>(
    ctx: &ExecutionContext<F>,
    p: &Expr,
    q: &Expr,
    input: Seq<RowModel>,
)
    requires
        same_expr(p, q),
    ensures
        filter_model(ctx, p, input) == filter_model(ctx, q, input),
    decreases input.len(),
{
    if input.len() > 0 {
        lemma_same_filter(ctx, p, q, input.drop_last());
        if let Ok(row) = input.last() {
            same_expr_evaluates_alike(ctx, row, p, q);
        }
    }
}

/// Copies of a projection's expressions project as the expressions do.
proof fn lemma_same_project<F: ScalarFunction>(
    ctx: &ExecutionContext<F>,
    xs: Seq<Expr>,
    ys: Seq<Expr>,
    input: Seq<RowModel>,
)
    requires
        same_exprs(xs, ys),
    ensures
        project_model(ctx, xs, input) == project_model(ctx, ys, input),
{
    assert forall|i: int| 0 <= i < input.len() implies project_item(ctx, xs, input[i])
        == project_item(ctx, ys, input[i]) by {
        if let Ok(row) = input[i] {
            same_exprs_evaluate_alike(ctx, row, xs, ys, xs.len());
        }
    }
    assert(project_model(ctx, xs, input) =~= project_model(ctx, ys, input));
}

/// A copy of a plan is the same query: it compiles or fails as the plan does,
/// to the same schema, and describes the same rows.
pub proof fn same_plan_runs_alike<F: ScalarFunction>(
    ctx: &ExecutionContext<F>,
    a: &LogicalPlan,
    b: &LogicalPlan,
    sources: Seq<Source>,
)
    requires
        same_plan(a, b),
    ensures
        plan_schema(a) == plan_schema(b),
        compile_failure(a, source_paths(sources)) == compile_failure(b, source_paths(sources)),
        plan_rows(ctx, a, sources) == plan_rows(ctx, b, sources),
    decreases a,
{
    match (a, b) {
        (
            LogicalPlan::Selection { expr: e1, input: i1, schema: s1 },
            LogicalPlan::Selection { expr: e2, input: i2, schema: s2 },
        ) => {
            same_plan_runs_alike(ctx, i1, i2, sources);
            lemma_same_filter(ctx, e1, e2, plan_rows(ctx, i1, sources));
        },
        (
            LogicalPlan::Projection { expr: e1, input: i1, schema: s1 },
            LogicalPlan::Projection { expr: e2, input: i2, schema: s2 },
        ) => {
            same_plan_runs_alike(ctx, i1, i2, sources);
            lemma_same_project_schema(plan_schema(i1), e1@, e2@, e1@.len());
            lemma_same_project(ctx, e1@, e2@, plan_rows(ctx, i1, sources));
        },
        (
            LogicalPlan::Limit { limit: l1, input: i1, schema: s1 },
            LogicalPlan::Limit { limit: l2, input: i2, schema: s2 },
        ) => {
            same_plan_runs_alike(ctx, i1, i2, sources);
        },
        _ => {},
    }
}

} // verus!
