use vstd::prelude::*;
use crate::context::ExecutionContext;
use crate::error::ExecutionError;
use crate::expr::{Expr, ScalarFunction};
use crate::schema::{conforms, FieldModel, Row, Schema, Value, ValueModel};
use crate::source::{
    create_tuple, read_records, records_model, records_of, row_result_model, tuple_conforms,
    tuple_model, RecordModel, RowModel,
};

verus! {

/// The rows of a relation, each as a mathematical value.
pub open spec fn rows_model(rows: Seq<Result<Row, ExecutionError>>) -> Seq<RowModel> {
    Seq::new(rows.len(), |i: int| row_result_model(rows[i]))
}

/// The content of a backing resource: where it lies, its bytes, and for each
/// record the doubles that were decoded from its fields (the bit pattern of
/// the number, for each field whose text is a number).
pub struct Source {
    pub path: String,
    pub data: Vec<u8>,
    pub doubles: Vec<Vec<Option<u64>>>,
}

/// The decoded doubles of the record at position `k`; none where the caller supplied none.
pub open spec fn doubles_row(doubles: Seq<Vec<Option<u64>>>, k: int) -> Seq<Option<u64>> {
    if 0 <= k < doubles.len() {
        doubles[k]@
    } else {
        Seq::empty()
    }
}

/// The rows of a scan: one per record, in source order. A record that could
/// not be read keeps its failure; any other becomes a row or, where it does
/// not fit the schema, a failure of its own.
pub open spec fn scan_model(
    schema: Seq<FieldModel>,
    records: Seq<RecordModel>,
    doubles: Seq<Vec<Option<u64>>>,
) -> Seq<RowModel> {
    Seq::new(
        records.len(),
        |k: int|
            match records[k] {
                Err(e) => Err(e),
                Ok(fields) => tuple_model(schema, fields, doubles_row(doubles, k)),
            },
    )
}

/// Turns the records of a source into rows under a schema.
pub fn scan_records(
    schema: &Schema,
    records: &Vec<Result<Vec<String>, ExecutionError>>,
    doubles: &Vec<Vec<Option<u64>>>,
) -> (rows: Vec<Result<Row, ExecutionError>>)
    ensures
        rows_model(rows@) == scan_model(schema@, records_model(records@), doubles@),
        forall|k: int| 0 <= k < rows@.len() ==> (#[trigger] rows@[k] matches Ok(row) ==> conforms(row@, schema@)),
{
    let none: Vec<Option<u64>> = Vec::new();
    let mut rows: Vec<Result<Row, ExecutionError>> = Vec::new();
    let mut k: usize = 0;
    while k < records.len()
        invariant
            k <= records@.len(),
            none@.len() == 0,
            rows@.len() == k,
            forall|j: int|
                0 <= j < k ==> row_result_model(#[trigger] rows@[j]) == scan_model(
                    schema@,
                    records_model(records@),
                    doubles@,
                )[j],
            forall|j: int| 0 <= j < k ==> (#[trigger] rows@[j] matches Ok(row) ==> conforms(row@, schema@)),
        decreases records@.len() - k,
    {
        let item: Result<Row, ExecutionError> = match &records[k] {
            Err(e) => Err(e.clone()),
            Ok(fields) => {
                if k < doubles.len() {
                    create_tuple(schema, fields, &doubles[k])
                } else {
                    assert(none@ =~= doubles_row(doubles@, k as int));
                    create_tuple(schema, fields, &none)
                }
            },
        };
        rows.push(item);
        k += 1;
    }
    assert(rows_model(rows@) =~= scan_model(schema@, records_model(records@), doubles@));
    rows
}

/// What a filter makes of one item of its input: a failure passes through, a
/// row stays where the predicate is `true` on it and leaves where it is
/// `false`, and a predicate that fails or is no boolean puts a failure in the
/// row's place.
pub open spec fn filter_item<F: ScalarFunction>(
    ctx: &ExecutionContext<F>,
    predicate: &Expr,
    item: RowModel,
) -> Option<RowModel> {
    match item {
        Err(e) => Some(Err(e)),
        Ok(row) => match ctx.eval(row, predicate) {
            Ok(ValueModel::Boolean(true)) => Some(Ok(row)),
            Ok(ValueModel::Boolean(false)) => None,
            Ok(_) => Some(Err(ExecutionError::NonBooleanPredicate)),
            Err(e) => Some(Err(e)),
        },
    }
}

/// The output of a filter: what `filter_item` keeps, in input order.
pub open spec fn filter_model<F: ScalarFunction>(
    ctx: &ExecutionContext<F>,
    predicate: &Expr,
    input: Seq<RowModel>,
) -> Seq<RowModel>
    decreases input.len(),
{
    if input.len() == 0 {
        Seq::empty()
    } else {
        let rest = filter_model(ctx, predicate, input.drop_last());
        match filter_item(ctx, predicate, input.last()) {
            Some(item) => rest.push(item),
            None => rest,
        }
    }
}

/// Keeps the rows on which the predicate holds.
pub fn filter_rows<F: ScalarFunction>(
    ctx: &ExecutionContext<F>,
    schema: &Schema,
    predicate: &Expr,
    input: &Vec<Result<Row, ExecutionError>>,
) -> (rows: Vec<Result<Row, ExecutionError>>)
    ensures
        rows_model(rows@) == filter_model(ctx, predicate, rows_model(input@)),
{
    let mut rows: Vec<Result<Row, ExecutionError>> = Vec::new();
    let mut i: usize = 0;
    assert(rows_model(input@).take(0) =~= Seq::<RowModel>::empty());
    assert(rows_model(rows@) =~= Seq::<RowModel>::empty());
    while i < input.len()
        invariant
            i <= input@.len(),
            rows_model(rows@) == filter_model(ctx, predicate, rows_model(input@).take(i as int)),
        decreases input@.len() - i,
    {
        let ghost before = rows_model(rows@);
        proof {
            let next = rows_model(input@).take(i as int + 1);
            assert(next.drop_last() =~= rows_model(input@).take(i as int));
            assert(next.last() == row_result_model(input@[i as int]));
        }
        match &input[i] {
            Err(e) => {
                rows.push(Err(e.clone()));
                assert(rows_model(rows@) =~= before.push(Err(*e)));
            },
            Ok(row) => match ctx.evaluate(row, schema, predicate) {
                Ok(Value::Boolean(true)) => {
                    let kept = row.clone();
                    rows.push(Ok(kept));
                    assert(rows_model(rows@) =~= before.push(Ok(row@)));
                },
                Ok(Value::Boolean(false)) => {},
                Ok(_) => {
                    rows.push(Err(ExecutionError::NonBooleanPredicate));
                    assert(rows_model(rows@) =~= before.push(
                        Err(ExecutionError::NonBooleanPredicate),
                    ));
                },
                Err(e) => {
                    rows.push(Err(e));
                    assert(rows_model(rows@) =~= before.push(Err(e)));
                },
            },
        }
        i += 1;
    }
    assert(rows_model(input@).take(input@.len() as int) =~= rows_model(input@));
    rows
}

/// What a projection makes of one item of its input: a failure passes
/// through, and a row becomes the values of the expressions on it, or the
/// first failure among them.
pub open spec fn project_item<F: ScalarFunction>(
    ctx: &ExecutionContext<F>,
    exprs: Seq<Expr>,
    item: RowModel,
) -> RowModel {
    match item {
        Err(e) => Err(e),
        Ok(row) => ctx.eval_list(row, exprs, exprs.len()),
    }
}

/// The output of a projection: one item per item of the input, in input order.
pub open spec fn project_model<F: ScalarFunction>(
    ctx: &ExecutionContext<F>,
    exprs: Seq<Expr>,
    input: Seq<RowModel>,
) -> Seq<RowModel> {
    Seq::new(input.len(), |i: int| project_item(ctx, exprs, input[i]))
}

/// Evaluates the expressions on every row.
pub fn project_rows<F: ScalarFunction>(
    ctx: &ExecutionContext<F>,
    schema: &Schema,
    exprs: &Vec<Expr>,
    input: &Vec<Result<Row, ExecutionError>>,
) -> (rows: Vec<Result<Row, ExecutionError>>)
    ensures
        rows_model(rows@) == project_model(ctx, exprs@, rows_model(input@)),
{
    let mut rows: Vec<Result<Row, ExecutionError>> = Vec::new();
    let mut i: usize = 0;
    while i < input.len()
        invariant
            i <= input@.len(),
            rows@.len() == i,
            forall|j: int|
                0 <= j < i ==> row_result_model(#[trigger] rows@[j]) == project_item(
                    ctx,
                    exprs@,
                    rows_model(input@)[j],
                ),
        decreases input@.len() - i,
    {
        let item: Result<Row, ExecutionError> = match &input[i] {
            Err(e) => Err(e.clone()),
            Ok(row) => match ctx.evaluate_all(row, schema, exprs) {
                Ok(values) => Ok(Row::new(values)),
                Err(e) => Err(e),
            },
        };
        rows.push(item);
        i += 1;
    }
    assert(rows_model(rows@) =~= project_model(ctx, exprs@, rows_model(input@)));
    rows
}

/// The output of a limit: the first `limit` items of the input, or all of
/// them where there are fewer.
pub open spec fn limit_model(limit: usize, input: Seq<RowModel>) -> Seq<RowModel> {
    if limit <= input.len() {
        input.take(limit as int)
    } else {
        input
    }
}

/// Keeps the first `limit` items.
pub fn limit_rows(limit: usize, input: &Vec<Result<Row, ExecutionError>>) -> (rows: Vec<
    Result<Row, ExecutionError>,
>)
    ensures
        rows_model(rows@) == limit_model(limit, rows_model(input@)),
        rows@.len() == if limit <= input@.len() {
            limit as int
        } else {
            input@.len() as int
        },
{
    let n: usize = if limit <= input.len() {
        limit
    } else {
        input.len()
    };
    let mut rows: Vec<Result<Row, ExecutionError>> = Vec::new();
    let mut i: usize = 0;
    while i < n
        invariant
            i <= n <= input@.len(),
            rows@.len() == i,
            forall|j: int|
                0 <= j < i ==> row_result_model(#[trigger] rows@[j]) == rows_model(input@)[j],
        decreases n - i,
    {
        let item: Result<Row, ExecutionError> = match &input[i] {
            Err(e) => Err(e.clone()),
            Ok(row) => Ok(row.clone()),
        };
        rows.push(item);
        i += 1;
    }
    assert(rows_model(rows@) =~= limit_model(limit, rows_model(input@)));
    rows
}

/// A scan of a comma-delimited source with a known schema.
pub struct CsvRelation<'a> {
    pub source: &'a Source,
    pub schema: Schema,
}

/// A relation that keeps the rows of its input on which a predicate holds.
pub struct FilterRelation<'a> {
    pub schema: Schema,
    pub input: Box<SimpleRelation<'a>>,
    pub expr: Expr,
}

/// A relation that evaluates a list of expressions on each row of its input.
pub struct ProjectRelation<'a> {
    pub schema: Schema,
    pub input: Box<SimpleRelation<'a>>,
    pub expr: Vec<Expr>,
}

/// A relation that ends after a number of items of its input.
pub struct LimitRelation<'a> {
    pub schema: Schema,
    pub input: Box<SimpleRelation<'a>>,
    pub limit: usize,
}

/// An executable relation: a sequence of rows with a known schema.
pub enum SimpleRelation<'a> {
    Csv(CsvRelation<'a>),
    Filter(FilterRelation<'a>),
    Project(ProjectRelation<'a>),
    Limit(LimitRelation<'a>),
}

impl<'a> CsvRelation<'a> {
    pub fn open(source: &'a Source, schema: Schema) -> (result: Result<Self, ExecutionError>)
        ensures
            result == Ok::<Self, ExecutionError>(CsvRelation { source, schema }),
    {
        Ok(CsvRelation { source, schema })
    }

    /// The rows of the scan.
    pub open spec fn output(&self) -> Seq<RowModel> {
        scan_model(self.schema@, records_of(self.source.data@), self.source.doubles@)
    }

    /// Reads every record of the source into a row, all at once.
    pub fn collect(&self) -> (rows: Vec<Result<Row, ExecutionError>>)
        ensures
            rows_model(rows@) == self.output(),
            forall|k: int|
                0 <= k < rows@.len() ==> (#[trigger] rows@[k] matches Ok(row) ==> conforms(
                    row@,
                    self.schema@,
                )),
    {
        let records = read_records(self.source.data.as_slice());
        scan_records(&self.schema, &records, &self.source.doubles)
    }

    pub fn schema(&self) -> (schema: &Schema)
        ensures
            schema == &self.schema,
    {
        &self.schema
    }
}

impl<'a> FilterRelation<'a> {
    /// The rows of the relation.
    pub open spec fn output<F: ScalarFunction>(&self, ctx: &ExecutionContext<F>) -> Seq<RowModel>
        decreases self,
    {
        filter_model(ctx, &self.expr, self.input.output(ctx))
    }

    pub fn collect<F: ScalarFunction>(&self, ctx: &ExecutionContext<F>) -> (rows: Vec<
        Result<Row, ExecutionError>,
    >)
        ensures
            rows_model(rows@) == self.output(ctx),
        decreases self,
    {
        let input = self.input.collect(ctx);
        filter_rows(ctx, &self.schema, &self.expr, &input)
    }

    pub fn schema(&self) -> (schema: &Schema)
        ensures
            schema == &self.schema,
    {
        &self.schema
    }
}

impl<'a> ProjectRelation<'a> {
    /// The rows of the relation.
    pub open spec fn output<F: ScalarFunction>(&self, ctx: &ExecutionContext<F>) -> Seq<RowModel>
        decreases self,
    {
        project_model(ctx, self.expr@, self.input.output(ctx))
    }

    pub fn collect<F: ScalarFunction>(&self, ctx: &ExecutionContext<F>) -> (rows: Vec<
        Result<Row, ExecutionError>,
    >)
        ensures
            rows_model(rows@) == self.output(ctx),
        decreases self,
    {
        let input = self.input.collect(ctx);
        project_rows(ctx, self.input.schema(), &self.expr, &input)
    }

    pub fn schema(&self) -> (schema: &Schema)
        ensures
            schema == &self.schema,
    {
        &self.schema
    }
}

impl<'a> LimitRelation<'a> {
    /// The rows of the relation.
    pub open spec fn output<F: ScalarFunction>(&self, ctx: &ExecutionContext<F>) -> Seq<RowModel>
        decreases self,
    {
        limit_model(self.limit, self.input.output(ctx))
    }

    pub fn collect<F: ScalarFunction>(&self, ctx: &ExecutionContext<F>) -> (rows: Vec<
        Result<Row, ExecutionError>,
    >)
        ensures
            rows_model(rows@) == self.output(ctx),
        decreases self,
    {
        let input = self.input.collect(ctx);
        limit_rows(self.limit, &input)
    }

    pub fn schema(&self) -> (schema: &Schema)
        ensures
            schema == &self.schema,
    {
        &self.schema
    }
}

impl<'a> SimpleRelation<'a> {
    /// The rows of the relation, in the order in which they are produced.
    pub open spec fn output<F: ScalarFunction>(&self, ctx: &ExecutionContext<F>) -> Seq<RowModel>
        decreases self,
    {
        match self {
            SimpleRelation::Csv(r) => r.output(),
            SimpleRelation::Filter(r) => r.output(ctx),
            SimpleRelation::Project(r) => r.output(ctx),
            SimpleRelation::Limit(r) => r.output(ctx),
        }
    }

    /// The schema of the relation's rows.
    pub open spec fn schema_model(&self) -> Seq<FieldModel> {
        match self {
            SimpleRelation::Csv(r) => r.schema@,
            SimpleRelation::Filter(r) => r.schema@,
            SimpleRelation::Project(r) => r.schema@,
            SimpleRelation::Limit(r) => r.schema@,
        }
    }

    /// Produces all rows of the relation at once, reading its input to the end.
    pub fn collect<F: ScalarFunction>(&self, ctx: &ExecutionContext<F>) -> (rows: Vec<
        Result<Row, ExecutionError>,
    >)
        ensures
            rows_model(rows@) == self.output(ctx),
        decreases self,
    {
        match self {
            SimpleRelation::Csv(r) => r.collect(),
            SimpleRelation::Filter(r) => r.collect(ctx),
            SimpleRelation::Project(r) => r.collect(ctx),
            SimpleRelation::Limit(r) => r.collect(ctx),
        }
    }

    pub fn schema(&self) -> (schema: &Schema)
        ensures
            schema@ == self.schema_model(),
    {
        match self {
            SimpleRelation::Csv(r) => r.schema(),
            SimpleRelation::Filter(r) => r.schema(),
            SimpleRelation::Project(r) => r.schema(),
            SimpleRelation::Limit(r) => r.schema(),
        }
    }
}

/// Every row of a scan has one value per column of the schema, each of the
/// column's declared type.
pub proof fn scanned_rows_conform(
    schema: Seq<FieldModel>,
    records: Seq<RecordModel>,
    doubles: Seq<Vec<Option<u64>>>,
    k: int,
)
    requires
        0 <= k < records.len(),
    ensures
        scan_model(schema, records, doubles)[k] matches Ok(row) ==> conforms(row, schema),
{
    if let Ok(fields) = records[k] {
        if schema.len() == fields.len() {
            tuple_conforms(schema, fields, doubles_row(doubles, k), schema.len());
            assert(schema.take(schema.len() as int) =~= schema);
        }
    }
}

/// Filtering what a filter has let through changes nothing.
pub proof fn filter_is_idempotent<F: ScalarFunction>(
    ctx: &ExecutionContext<F>,
    predicate: &Expr,
    input: Seq<RowModel>,
)
    ensures
        filter_model(ctx, predicate, filter_model(ctx, predicate, input)) == filter_model(
            ctx,
            predicate,
            input,
        ),
    decreases input.len(),
{
    if input.len() > 0 {
        let rest = filter_model(ctx, predicate, input.drop_last());
        filter_is_idempotent(ctx, predicate, input.drop_last());
        match filter_item(ctx, predicate, input.last()) {
            Some(item) => {
                assert(rest.push(item).drop_last() =~= rest);
                assert(filter_item(ctx, predicate, item) == Some(item));
            },
            None => {},
        }
    }
}

/// A filter keeps the order of its input: its output is the input with some
/// items left out, and a failure in the place of each row that the predicate
/// could not judge. `kept` says which positions of the input stay.
pub proof fn filter_preserves_order<F: ScalarFunction>(
    ctx: &ExecutionContext<F>,
    predicate: &Expr,
    input: Seq<RowModel>,
) -> (kept: Seq<int>)
    ensures
        kept.len() == filter_model(ctx, predicate, input).len(),
        forall|j: int| 0 <= j < kept.len() ==> 0 <= #[trigger] kept[j] < input.len(),
        forall|i: int, j: int| 0 <= i < j < kept.len() ==> kept[i] < kept[j],
        forall|j: int|
            0 <= j < kept.len() ==> filter_item(ctx, predicate, input[#[trigger] kept[j]]) == Some(
                filter_model(ctx, predicate, input)[j],
            ),
    decreases input.len(),
{
    if input.len() == 0 {
        Seq::empty()
    } else {
        let rest = filter_preserves_order(ctx, predicate, input.drop_last());
        match filter_item(ctx, predicate, input.last()) {
            Some(item) => rest.push(input.len() - 1),
            None => rest,
        }
    }
}

/// A projection of column references picks the values at those positions.
pub proof fn project_columns_is_positional<F: ScalarFunction>(
    ctx: &ExecutionContext<F>,
    exprs: Seq<Expr>,
    idxs: Seq<usize>,
    row: Seq<ValueModel>,
)
    requires
        exprs.len() == idxs.len(),
        forall|k: int| 0 <= k < exprs.len() ==> exprs[k] == Expr::TupleValue(idxs[k]),
        forall|k: int| 0 <= k < idxs.len() ==> idxs[k] < row.len(),
    ensures
        project_item(ctx, exprs, Ok(row)) == Ok::<Seq<ValueModel>, ExecutionError>(
            Seq::new(idxs.len(), |k: int| row[idxs[k] as int]),
        ),
{
    lemma_column_prefix(ctx, exprs, idxs, row, exprs.len());
}

/// The first `n` of a list of column references evaluate to the values at their positions.
proof fn lemma_column_prefix<F: ScalarFunction>(
    ctx: &ExecutionContext<F>,
    exprs: Seq<Expr>,
    idxs: Seq<usize>,
    row: Seq<ValueModel>,
    n: nat,
)
    requires
        n <= exprs.len(),
        exprs.len() == idxs.len(),
        forall|k: int| 0 <= k < exprs.len() ==> exprs[k] == Expr::TupleValue(idxs[k]),
        forall|k: int| 0 <= k < idxs.len() ==> idxs[k] < row.len(),
    ensures
        ctx.eval_list(row, exprs, n) == Ok::<Seq<ValueModel>, ExecutionError>(
            Seq::new(n, |k: int| row[idxs[k] as int]),
        ),
    decreases n,
{
    if n > 0 {
        lemma_column_prefix(ctx, exprs, idxs, row, (n - 1) as nat);
        assert(exprs[n - 1] == Expr::TupleValue(idxs[n - 1]));
        assert(ctx.eval(row, &exprs[n - 1]) == Ok::<ValueModel, ExecutionError>(
            row[idxs[n - 1] as int],
        ));
        assert(Seq::new((n - 1) as nat, |k: int| row[idxs[k] as int]).push(
            row[idxs[n - 1] as int],
        ) =~= Seq::new(n, |k: int| row[idxs[k] as int]));
    } else {
        assert(Seq::new(n, |k: int| row[idxs[k] as int]) =~= Seq::<ValueModel>::empty());
    }
}

/// A projected row has one value per expression of the projection.
pub proof fn projected_row_has_one_value_per_expression<F: ScalarFunction>(
    ctx: &ExecutionContext<F>,
    exprs: Seq<Expr>,
    row: Seq<ValueModel>,
)
    ensures
        project_item(ctx, exprs, Ok(row)) matches Ok(values) ==> values.len() == exprs.len(),
{
    lemma_eval_list_len(ctx, exprs, row, exprs.len());
}

/// The first `n` expressions of a list evaluate to `n` values.
proof fn lemma_eval_list_len<F: ScalarFunction>(
    ctx: &ExecutionContext<F>,
    exprs: Seq<Expr>,
    row: Seq<ValueModel>,
    n: nat,
)
    requires
        n <= exprs.len(),
    ensures
        ctx.eval_list(row, exprs, n) matches Ok(values) ==> values.len() == n,
    decreases n,
{
    if n > 0 {
        lemma_eval_list_len(ctx, exprs, row, (n - 1) as nat);
    }
}

/// A limit yields the smaller of its count and the length of its input, the
/// items being the first of the input in their order; a count of zero yields nothing.
pub proof fn limit_yields_prefix(limit: usize, input: Seq<RowModel>)
    ensures
        limit_model(limit, input).len() == if limit <= input.len() {
            limit as int
        } else {
            input.len() as int
        },
        forall|i: int|
            0 <= i < limit_model(limit, input).len() ==> limit_model(limit, input)[i] == input[i],
        limit == 0 ==> limit_model(limit, input) == Seq::<RowModel>::empty(),
{
    if limit == 0 {
        assert(limit_model(limit, input) =~= Seq::<RowModel>::empty());
    }
}

} // verus!
