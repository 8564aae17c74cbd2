use vstd::prelude::*;
use crate::context::ExecutionContext;
use crate::error::ExecutionError;
use crate::expr::{Expr, ScalarFunction};
use crate::relation::{
    doubles_row, filter_item, filter_model, limit_model, project_model, scan_model, CsvRelation,
    FilterRelation, LimitRelation, ProjectRelation, SimpleRelation,
};
use crate::schema::{Row, Schema, Value};
use crate::source::{create_tuple, read_records, records_model, row_result_model, RowModel};

verus! {

/// A relation while it is read: a forward-only sequence of rows that is
/// pulled one item at a time. An operator pulls from its input only when it
/// is pulled itself.
pub enum RowStream<'r> {
    Scan {
        schema: &'r Schema,
        records: Vec<Result<Vec<String>, ExecutionError>>,
        doubles: &'r Vec<Vec<Option<u64>>>,
        position: usize,
    },
    Filter { input: Box<RowStream<'r>>, schema: &'r Schema, expr: &'r Expr },
    Project { input: Box<RowStream<'r>>, schema: &'r Schema, exprs: &'r Vec<Expr> },
    Limit { input: Box<RowStream<'r>>, left: usize },
}

/// The output of a filter, taken from the front of its input.
pub proof fn filter_model_front<F: ScalarFunction>(
    ctx: &ExecutionContext<F>,
    predicate: &Expr,
    input: Seq<RowModel>,
)
    requires
        input.len() > 0,
    ensures
        filter_model(ctx, predicate, input) == match filter_item(ctx, predicate, input[0]) {
            Some(item) => seq![item] + filter_model(ctx, predicate, input.skip(1)),
            None => filter_model(ctx, predicate, input.skip(1)),
        },
    decreases input.len(),
{
    let tail = input.skip(1);
    if input.len() == 1 {
        assert(input.drop_last() =~= Seq::<RowModel>::empty());
        assert(tail =~= Seq::<RowModel>::empty());
        let rest = filter_model(ctx, predicate, input.drop_last());
        match filter_item(ctx, predicate, input[0]) {
            Some(item) => {
                assert(rest.push(item) =~= seq![item] + filter_model(ctx, predicate, tail));
            },
            None => {},
        }
    } else {
        filter_model_front(ctx, predicate, input.drop_last());
        assert(input.drop_last().skip(1) =~= tail.drop_last());
        assert(tail.last() == input.last());
        assert(input.drop_last()[0] == input[0]);
        let inner = filter_model(ctx, predicate, tail.drop_last());
        match (filter_item(ctx, predicate, input[0]), filter_item(ctx, predicate, input.last())) {
            (Some(first), Some(last)) => {
                assert((seq![first] + inner).push(last) =~= seq![first] + inner.push(last));
            },
            _ => {},
        }
    }
}

/// How many items a filter pulls from its input when it is pulled once: all
/// that it drops before the first item that it yields, and that item.
pub open spec fn filter_pulls<F: ScalarFunction>(
    ctx: &ExecutionContext<F>,
    predicate: &Expr,
    input: Seq<RowModel>,
) -> nat
    decreases input.len(),
{
    if input.len() == 0 {
        0
    } else if filter_item(ctx, predicate, input[0]) is Some {
        1
    } else {
        1 + filter_pulls(ctx, predicate, input.skip(1))
    }
}

impl<'r> RowStream<'r> {
    /// How many operators lie on top of each other in the stream.
    pub open spec fn depth(&self) -> nat
        decreases self,
    {
        match self {
            RowStream::Scan { .. } => 0,
            RowStream::Filter { input, .. } => input.depth() + 1,
            RowStream::Project { input, .. } => input.depth() + 1,
            RowStream::Limit { input, .. } => input.depth() + 1,
        }
    }

    /// The items that the stream has yet to yield, in order.
    pub open spec fn rest<F: ScalarFunction>(&self, ctx: &ExecutionContext<F>) -> Seq<RowModel>
        decreases self,
    {
        match self {
            RowStream::Scan { schema, records, doubles, position } => if *position
                <= records@.len() {
                scan_model(schema@, records_model(records@), doubles@).skip(*position as int)
            } else {
                Seq::empty()
            },
            RowStream::Filter { input, schema, expr } => filter_model(ctx, expr, input.rest(ctx)),
            RowStream::Project { input, schema, exprs } => project_model(
                ctx,
                exprs@,
                input.rest(ctx),
            ),
            RowStream::Limit { input, left } => limit_model(*left, input.rest(ctx)),
        }
    }

    /// Whether a pull that gave `item` and left the stream `next` has pulled
    /// from the operator's input no more than it had to: a limit that has
    /// yielded its count leaves itself as it is, a limit or a projection that
    /// yields an item has pulled one item, and a filter has pulled the items
    /// that it drops before the item that it yields, and that item.
    pub open spec fn pulls_as_needed<F: ScalarFunction>(
        &self,
        ctx: &ExecutionContext<F>,
        item: Option<Result<Row, ExecutionError>>,
        next: RowStream<'r>,
    ) -> bool {
        match self {
            RowStream::Scan { .. } => true,
            RowStream::Limit { input: before, left } => if *left == 0 {
                item is None && next == *self
            } else {
                &&& next matches RowStream::Limit { input: after, left: l }
                &&& item is Some ==> l == left - 1 && after.rest(ctx) == before.rest(ctx).skip(1)
            },
            RowStream::Project { input: before, .. } => {
                &&& next matches RowStream::Project { input: after, .. }
                &&& item is Some ==> after.rest(ctx) == before.rest(ctx).skip(1)
            },
            RowStream::Filter { input: before, expr, .. } => {
                &&& next matches RowStream::Filter { input: after, .. }
                &&& after.rest(ctx) == before.rest(ctx).skip(
                    filter_pulls(ctx, expr, before.rest(ctx)) as int,
                )
            },
        }
    }

    /// Pulls the next item: the item, if there is one, and the stream after it.
    ///
    /// A filter pulls from its input until a row stays or the input ends. A
    /// limit that has yielded its count ends without touching its input.
    pub fn pull<F: ScalarFunction>(self, ctx: &ExecutionContext<F>) -> (out: (
        Option<Result<Row, ExecutionError>>,
        RowStream<'r>,
    ))
        ensures
            out.1.depth() == self.depth(),
            match out.0 {
                Some(item) => {
                    &&& self.rest(ctx).len() > 0
                    &&& row_result_model(item) == self.rest(ctx)[0]
                    &&& out.1.rest(ctx) == self.rest(ctx).skip(1)
                },
                None => self.rest(ctx).len() == 0 && out.1.rest(ctx).len() == 0,
            },
            self.pulls_as_needed(ctx, out.0, out.1),
        decreases self.depth(),
    {
        match self {
            RowStream::Scan { schema, records, doubles, position } => {
                let ghost all = scan_model(schema@, records_model(records@), doubles@);
                if position < records.len() {
                    let none: Vec<Option<u64>> = Vec::new();
                    let item: Result<Row, ExecutionError> = match &records[position] {
                        Err(e) => Err(e.clone()),
                        Ok(fields) => {
                            if position < doubles.len() {
                                create_tuple(schema, fields, &doubles[position])
                            } else {
                                assert(none@ =~= doubles_row(doubles@, position as int));
                                create_tuple(schema, fields, &none)
                            }
                        },
                    };
                    assert(all.skip(position as int).skip(1) =~= all.skip(position as int + 1));
                    (Some(item), RowStream::Scan { schema, records, doubles, position: position + 1 })
                } else {
                    (None, RowStream::Scan { schema, records, doubles, position })
                }
            },
            RowStream::Filter { input, schema, expr } => {
                let ghost all = input.rest(ctx);
                let ghost mut pulled: nat = 0;
                let mut current: RowStream<'r> = *input;
                assert(all.skip(0) =~= all);
                loop
                    invariant
                        self matches RowStream::Filter { input: i, expr: e, .. } && i.rest(ctx)
                            == all && e == expr,
                        pulled <= all.len(),
                        current.rest(ctx) == all.skip(pulled as int),
                        filter_pulls(ctx, expr, all) == pulled + filter_pulls(
                            ctx,
                            expr,
                            current.rest(ctx),
                        ),
                        current.depth() + 1 == self.depth(),
                        filter_model(ctx, expr, current.rest(ctx)) == self.rest(ctx),
                    decreases current.rest(ctx).len(),
                {
                    proof {
                        if current.rest(ctx).len() > 0 {
                            filter_model_front(ctx, expr, current.rest(ctx));
                        }
                    }
                    let ghost before = self.rest(ctx);
                    let (item, next) = current.pull(ctx);
                    let ghost after = filter_model(ctx, expr, next.rest(ctx));
                    proof {
                        if item is Some {
                            assert(all.skip(pulled as int).skip(1) =~= all.skip(pulled as int + 1));
                        } else {
                            assert(next.rest(ctx) =~= all.skip(pulled as int));
                        }
                    }
                    match item {
                        None => {
                            return (None, RowStream::Filter { input: Box::new(next), schema, expr });
                        },
                        Some(Err(e)) => {
                            assert(before.skip(1) =~= after);
                            return (
                                Some(Err(e)),
                                RowStream::Filter { input: Box::new(next), schema, expr },
                            );
                        },
                        Some(Ok(row)) => match ctx.evaluate(&row, schema, expr) {
                            Ok(Value::Boolean(true)) => {
                                assert(before.skip(1) =~= after);
                                return (
                                    Some(Ok(row)),
                                    RowStream::Filter { input: Box::new(next), schema, expr },
                                );
                            },
                            Ok(Value::Boolean(false)) => {
                                current = next;
                                proof {
                                    pulled = pulled + 1;
                                }
                            },
                            Ok(_) => {
                                assert(before.skip(1) =~= after);
                                return (
                                    Some(Err(ExecutionError::NonBooleanPredicate)),
                                    RowStream::Filter { input: Box::new(next), schema, expr },
                                );
                            },
                            Err(e) => {
                                assert(before.skip(1) =~= after);
                                return (
                                    Some(Err(e)),
                                    RowStream::Filter { input: Box::new(next), schema, expr },
                                );
                            },
                        },
                    }
                }
            },
            RowStream::Project { input, schema, exprs } => {
                let ghost before = input.rest(ctx);
                let (item, next) = (*input).pull(ctx);
                let out: Option<Result<Row, ExecutionError>> = match item {
                    None => None,
                    Some(Err(e)) => Some(Err(e)),
                    Some(Ok(row)) => match ctx.evaluate_all(&row, schema, exprs) {
                        Ok(values) => Some(Ok(Row::new(values))),
                        Err(e) => Some(Err(e)),
                    },
                };
                assert(out is Some ==> project_model(ctx, exprs@, before).skip(1) =~= project_model(
                    ctx,
                    exprs@,
                    next.rest(ctx),
                ));
                (out, RowStream::Project { input: Box::new(next), schema, exprs })
            },
            RowStream::Limit { input, left } => {
                if left == 0 {
                    (None, RowStream::Limit { input, left })
                } else {
                    let ghost before = input.rest(ctx);
                    let (item, next) = (*input).pull(ctx);
                    match item {
                        None => (None, RowStream::Limit { input: Box::new(next), left }),
                        Some(r) => {
                            assert(limit_model(left, before).skip(1) =~= limit_model(
                                (left - 1) as usize,
                                next.rest(ctx),
                            ));
                            (Some(r), RowStream::Limit { input: Box::new(next), left: left - 1 })
                        },
                    }
                }
            },
        }
    }
}

impl<'a> CsvRelation<'a> {
    /// Opens the scan for reading. The source is read here; its records
    /// become rows as they are pulled.
    pub fn scan<'r, F: ScalarFunction>(&'r self, ctx: &ExecutionContext<F>) -> (stream: RowStream<
        'r,
    >)
        ensures
            stream.rest(ctx) == self.output(),
    {
        let records = read_records(self.source.data.as_slice());
        let stream = RowStream::Scan {
            schema: &self.schema,
            records,
            doubles: &self.source.doubles,
            position: 0,
        };
        assert(stream.rest(ctx) =~= self.output());
        stream
    }
}

impl<'a> FilterRelation<'a> {
    /// Opens the relation for reading; nothing is pulled from its input yet.
    pub fn scan<'r, F: ScalarFunction>(&'r self, ctx: &ExecutionContext<F>) -> (stream: RowStream<
        'r,
    >)
        ensures
            stream.rest(ctx) == self.output(ctx),
        decreases self,
    {
        RowStream::Filter {
            input: Box::new(self.input.scan(ctx)),
            schema: &self.schema,
            expr: &self.expr,
        }
    }
}

impl<'a> ProjectRelation<'a> {
    /// Opens the relation for reading; nothing is pulled from its input yet.
    pub fn scan<'r, F: ScalarFunction>(&'r self, ctx: &ExecutionContext<F>) -> (stream: RowStream<
        'r,
    >)
        ensures
            stream.rest(ctx) == self.output(ctx),
        decreases self,
    {
        RowStream::Project {
            input: Box::new(self.input.scan(ctx)),
            schema: self.input.schema(),
            exprs: &self.expr,
        }
    }
}

impl<'a> LimitRelation<'a> {
    /// Opens the relation for reading; nothing is pulled from its input yet.
    pub fn scan<'r, F: ScalarFunction>(&'r self, ctx: &ExecutionContext<F>) -> (stream: RowStream<
        'r,
    >)
        ensures
            stream.rest(ctx) == self.output(ctx),
        decreases self,
    {
        RowStream::Limit { input: Box::new(self.input.scan(ctx)), left: self.limit }
    }
}

impl<'a> SimpleRelation<'a> {
    /// Opens the relation for reading: a stream that yields the relation's
    /// rows one pull at a time, each operator pulling from its input only
    /// when it is pulled itself.
    pub fn scan<'r, F: ScalarFunction>(&'r self, ctx: &ExecutionContext<F>) -> (stream: RowStream<
        'r,
    >)
        ensures
            stream.rest(ctx) == self.output(ctx),
        decreases self,
    {
        match self {
            SimpleRelation::Csv(r) => r.scan(ctx),
            SimpleRelation::Filter(r) => r.scan(ctx),
            SimpleRelation::Project(r) => r.scan(ctx),
            SimpleRelation::Limit(r) => r.scan(ctx),
        }
    }
}

} // verus!
