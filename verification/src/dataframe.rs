use vstd::prelude::*;
use vstd::string::StringExecFns;
use crate::context::ExecutionContext;
use crate::error::ExecutionError;
use crate::expr::{same_plan, Expr, LogicalPlan, ScalarFunction};
use crate::plan::{
    compile_failure, compiled_relation_produces_plan_rows, plan_rows, source_paths,
};
use crate::relation::{rows_model, Source};
use crate::schema::{first_named, FieldModel, Row, Schema, Value, ValueModel};
use crate::text::{decimal_text, unsigned_text};

verus! {

/// The schema that a plan carries; a plan without a relation carries none.
pub open spec fn carried_schema(plan: &LogicalPlan) -> Seq<FieldModel> {
    match plan {
        LogicalPlan::EmptyRelation => Seq::empty(),
        LogicalPlan::TableScan { table_name, schema } => schema@,
        LogicalPlan::CsvFile { filename, schema } => schema@,
        LogicalPlan::Selection { expr, input, schema } => schema@,
        LogicalPlan::Projection { expr, input, schema } => schema@,
        LogicalPlan::Limit { limit, input, schema } => schema@,
    }
}

impl LogicalPlan {
    /// The schema that the plan carries.
    pub fn schema(&self) -> (schema: Schema)
        ensures
            schema@ == carried_schema(self),
    {
        match self {
            LogicalPlan::EmptyRelation => {
                let empty = Schema::new(Vec::new());
                assert(empty@ =~= Seq::<FieldModel>::empty());
                empty
            },
            LogicalPlan::TableScan { table_name, schema } => schema.clone(),
            LogicalPlan::CsvFile { filename, schema } => schema.clone(),
            LogicalPlan::Selection { expr, input, schema } => schema.clone(),
            LogicalPlan::Projection { expr, input, schema } => schema.clone(),
            LogicalPlan::Limit { limit, input, schema } => schema.clone(),
        }
    }
}

/// A query under construction: a plan that each step wraps in one more
/// operator. A step takes the handle over; a caller that goes on from one
/// query twice clones the handle first.
#[derive(Debug)]
pub struct DF {
    pub plan: Box<LogicalPlan>,
}

impl Clone for DF {
    fn clone(&self) -> (copy: DF)
        ensures
            same_plan(&*self.plan, &*copy.plan),
    {
        DF { plan: Box::new(self.plan.duplicate()) }
    }
}

impl DF {
    /// Projects the query onto a list of expressions.
    pub fn select(self, expr: Vec<Expr>) -> (result: Result<DF, ExecutionError>)
        ensures
            result matches Ok(df) && (*df.plan matches LogicalPlan::Projection {
                expr: e,
                input,
                schema,
            } && e == expr && input == self.plan && schema@ == carried_schema(&*self.plan)),
    {
        let schema = self.plan.schema();
        Ok(DF { plan: Box::new(LogicalPlan::Projection { expr, input: self.plan, schema }) })
    }

    /// Restricts the query to the rows on which a predicate holds.
    pub fn filter(self, expr: Expr) -> (result: Result<DF, ExecutionError>)
        ensures
            result matches Ok(df) && (*df.plan matches LogicalPlan::Selection {
                expr: e,
                input,
                schema,
            } && e == expr && input == self.plan && schema@ == carried_schema(&*self.plan)),
    {
        let schema = self.plan.schema();
        Ok(DF { plan: Box::new(LogicalPlan::Selection { expr, input: self.plan, schema }) })
    }

    /// A reference to the column of the given name, by its position.
    pub fn col(&self, column_name: &str) -> (result: Result<Expr, ExecutionError>)
        ensures
            match result {
                Ok(e) => first_named(carried_schema(&*self.plan), column_name@, 0) matches Some(i)
                    && e == Expr::TupleValue(i as usize),
                Err(e) => first_named(carried_schema(&*self.plan), column_name@, 0) is None && (e matches ExecutionError::InvalidColumn(
                    n,
                ) && n@ == column_name@),
            },
    {
        let schema = self.plan.schema();
        match schema.column(column_name) {
            Some((i, _)) => Ok(Expr::TupleValue(i)),
            None => Err(ExecutionError::InvalidColumn(String::from_str(column_name))),
        }
    }

    /// The schema of the query's rows.
    pub fn schema(&self) -> (schema: Schema)
        ensures
            schema@ == carried_schema(&*self.plan),
    {
        self.plan.schema()
    }

    /// Compiles the query and produces its rows. A plan that does not compile
    /// produces nothing; a failure while a row is produced takes the row's place.
    pub fn execute<F: ScalarFunction>(self, ctx: &ExecutionContext<F>, sources: &Vec<Source>) -> (result:
        Result<Vec<Result<Row, ExecutionError>>, ExecutionError>)
        ensures
            match result {
                Ok(rows) => compile_failure(&*self.plan, source_paths(sources@)) is None
                    && rows_model(rows@) == plan_rows(ctx, &*self.plan, sources@),
                Err(e) => compile_failure(&*self.plan, source_paths(sources@)) == Some(e),
            },
    {
        let ghost plan = *self.plan;
        match ctx.create_execution_plan(*self.plan, sources) {
            Err(e) => Err(e),
            Ok(rel) => {
                proof {
                    compiled_relation_produces_plan_rows(ctx, &plan, &rel, sources@);
                }
                Ok(rel.collect(ctx))
            },
        }
    }
}

impl<F: ScalarFunction> ExecutionContext<F> {
    /// Starts a query over the file at a path, whose rows have the given schema.
    pub fn load(&self, filename: &str, schema: &Schema) -> (result: Result<DF, ExecutionError>)
        ensures
            result matches Ok(df) && (*df.plan matches LogicalPlan::CsvFile { filename: f, schema: s }
                && f@ == filename@ && s@ == schema@),
    {
        let plan = LogicalPlan::CsvFile {
            filename: String::from_str(filename),
            schema: schema.clone(),
        };
        Ok(DF { plan: Box::new(plan) })
    }
}

/// The text form of a value that holds no floating-point number: the decimal
/// digits of an unsigned number, a text as it is, `true` or `false`.
pub open spec fn plain_text_model(v: ValueModel) -> Option<Seq<char>> {
    match v {
        ValueModel::UnsignedLong(n) => Some(decimal_text(n as nat)),
        ValueModel::String(s) => Some(s),
        ValueModel::Boolean(b) => Some(
            if b {
                "true"@
            } else {
                "false"@
            },
        ),
        _ => None,
    }
}

impl Value {
    /// The text of the value in an output line; `None` for a double or a
    /// point, whose text the caller renders.
    pub fn plain_text(&self) -> (text: Option<String>)
        ensures
            match text {
                Some(t) => plain_text_model(self@) == Some(t@),
                None => plain_text_model(self@) is None,
            },
    {
        match self {
            Value::UnsignedLong(n) => Some(unsigned_text(*n)),
            Value::String(s) => Some(s.clone()),
            Value::Boolean(b) => {
                if *b {
                    Some(String::from_str("true"))
                } else {
                    Some(String::from_str("false"))
                }
            },
            _ => None,
        }
    }
}

/// The text of the first `n` fields of an output line, a comma between each two.
pub open spec fn joined(fields: Seq<String>, n: nat) -> Seq<char>
    decreases n,
{
    if n == 0 || n > fields.len() {
        Seq::empty()
    } else if n == 1 {
        fields[0]@
    } else {
        joined(fields, (n - 1) as nat) + ","@ + fields[n - 1]@
    }
}

/// An output line: the fields of a row in their text form, joined by commas
/// and ended by a newline.
pub fn format_line(fields: &Vec<String>) -> (line: String)
    ensures
        line@ == joined(fields@, fields@.len()) + "\n"@,
{
    let mut line = String::new();
    let mut i: usize = 0;
    while i < fields.len()
        invariant
            i <= fields@.len(),
            line@ == joined(fields@, i as nat),
        decreases fields@.len() - i,
    {
        if i > 0 {
            line.append(",");
        } else {
            assert(line@ + fields@[0]@ =~= fields@[0]@);
        }
        line.append(fields[i].as_str());
        i += 1;
    }
    line.append("\n");
    line
}

} // verus!
