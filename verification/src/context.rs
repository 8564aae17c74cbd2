use vstd::prelude::*;
use crate::error::ExecutionError;
use crate::expr::{
    compare_model, compare_values, same_expr, same_exprs, value_result_model, values_model, Expr,
    FunctionMeta, ScalarFunction,
};
use crate::schema::{Row, Schema, Value, ValueModel};
use crate::text::{lowercase_of, to_lowercase};

verus! {

/// A registered table: its name and the schema of its rows.
#[derive(Debug)]
pub struct TableEntry {
    pub name: String,
    pub schema: Schema,
}

/// A registered function: what the registry records of it, and the function itself.
pub struct FunctionEntry<F: ScalarFunction> {
    pub meta: FunctionMeta,
    pub function: F,
}

/// The tables and functions that queries can name. A later registration
/// under a name replaces an earlier one.
pub struct ExecutionContext<F: ScalarFunction> {
    pub schemas: Vec<TableEntry>,
    pub functions: Vec<FunctionEntry<F>>,
}

/// The last position before `upto` that holds `key`.
pub open spec fn last_named(keys: Seq<Seq<char>>, key: Seq<char>, upto: int) -> Option<int>
    decreases upto,
{
    if upto <= 0 || upto > keys.len() {
        None
    } else if keys[upto - 1] == key {
        Some(upto - 1)
    } else {
        last_named(keys, key, upto - 1)
    }
}

impl<F: ScalarFunction> ExecutionContext<F> {
    /// The names under which the functions are registered, in order of registration.
    pub open spec fn function_keys(&self) -> Seq<Seq<char>> {
        Seq::new(self.functions@.len(), |i: int| self.functions@[i].meta.name@)
    }

    /// The names of the registered tables, in order of registration.
    pub open spec fn table_keys(&self) -> Seq<Seq<char>> {
        Seq::new(self.schemas@.len(), |i: int| self.schemas@[i].name@)
    }

    /// The position of the function that a name resolves to: names are
    /// matched in lower case, and the latest registration wins.
    pub open spec fn resolve(&self, name: Seq<char>) -> Option<int> {
        last_named(self.function_keys(), lowercase_of(name), self.functions@.len() as int)
    }

    /// What a call of the function called `name` on `args` gives.
    pub open spec fn invoke(&self, name: String, args: Seq<ValueModel>) -> Result<
        ValueModel,
        ExecutionError,
    > {
        match self.resolve(name@) {
            None => Err(ExecutionError::UnknownFunction(name)),
            Some(i) => match self.functions@[i].function.outcome(args) {
                Some(v) => Ok(v),
                None => Err(ExecutionError::InvocationFailed),
            },
        }
    }

    /// The value of an expression on a row.
    pub open spec fn eval(&self, row: Seq<ValueModel>, e: &Expr) -> Result<
        ValueModel,
        ExecutionError,
    >
        decreases e, 0nat,
    {
        match e {
            Expr::TupleValue(i) => if *i < row.len() {
                Ok(row[*i as int])
            } else {
                Err(ExecutionError::ColumnOutOfRange)
            },
            Expr::Literal(v) => Ok(v@),
            Expr::BinaryExpr { left, op, right } => match self.eval(row, left) {
                Err(e) => Err(e),
                Ok(l) => match self.eval(row, right) {
                    Err(e) => Err(e),
                    Ok(r) => compare_model(*op, l, r),
                },
            },
            Expr::ScalarFunction { name, args } => match self.eval_list(row, args@, args@.len()) {
                Err(e) => Err(e),
                Ok(values) => self.invoke(*name, values),
            },
        }
    }

    /// The values of the first `n` expressions of a list on a row, from left
    /// to right; the first failure ends the evaluation.
    pub open spec fn eval_list(&self, row: Seq<ValueModel>, exprs: Seq<Expr>, n: nat) -> Result<
        Seq<ValueModel>,
        ExecutionError,
    >
        decreases exprs, n,
    {
        if n == 0 || n > exprs.len() {
            Ok(Seq::empty())
        } else {
            match self.eval_list(row, exprs, (n - 1) as nat) {
                Err(e) => Err(e),
                Ok(values) => match self.eval(row, &exprs[n - 1]) {
                    Err(e) => Err(e),
                    Ok(v) => Ok(values.push(v)),
                },
            }
        }
    }

    /// A context without tables and functions: no name resolves in it.
    pub fn new() -> (ctx: Self)
        ensures
            ctx.schemas@.len() == 0,
            ctx.functions@.len() == 0,
            forall|name: Seq<char>| #[trigger] ctx.resolve(name) is None,
    {
        ExecutionContext { schemas: Vec::new(), functions: Vec::new() }
    }

    /// Registers the schema of a table under a name.
    pub fn define_schema(&mut self, name: &str, schema: &Schema)
        ensures
            final(self).schemas@.len() == old(self).schemas@.len() + 1,
            final(self).schemas@.drop_last() == old(self).schemas@,
            final(self).schemas@.last().name@ == name@,
            final(self).schemas@.last().schema@ == schema@,
            final(self).functions == old(self).functions,
    {
        self.schemas.push(TableEntry { name: name.to_owned(), schema: schema.clone() });
        assert(self.schemas@.drop_last() =~= old(self).schemas@);
    }

    /// Registers the schema of a table under a name, taking both over.
    pub fn register_table(&mut self, name: String, schema: Schema)
        ensures
            final(self).schemas@ == old(self).schemas@.push(TableEntry { name, schema }),
            final(self).functions == old(self).functions,
    {
        self.schemas.push(TableEntry { name, schema });
    }

    /// The schema registered under a table name: the latest, if there are several.
    pub fn table_schema(&self, name: &str) -> (found: Option<Schema>)
        ensures
            match found {
                Some(s) => {
                    &&& last_named(self.table_keys(), name@, self.schemas@.len() as int) is Some
                    &&& s@ == self.schemas@[last_named(
                        self.table_keys(),
                        name@,
                        self.schemas@.len() as int,
                    ).unwrap()].schema@
                },
                None => last_named(self.table_keys(), name@, self.schemas@.len() as int) is None,
            },
    {
        let wanted: String = name.to_owned();
        let mut i: usize = self.schemas.len();
        while i > 0
            invariant
                i <= self.schemas@.len(),
                wanted@ == name@,
                last_named(self.table_keys(), name@, self.schemas@.len() as int) == last_named(
                    self.table_keys(),
                    name@,
                    i as int,
                ),
            decreases i,
        {
            if self.schemas[i - 1].name == wanted {
                return Some(self.schemas[i - 1].schema.clone());
            }
            i -= 1;
        }
        None
    }

    /// Registers a function under its name in lower case. From now on the
    /// name resolves to this function, however it is capitalised.
    pub fn define_function(&mut self, func: F)
        ensures
            final(self).functions@.len() == old(self).functions@.len() + 1,
            final(self).functions@.drop_last() == old(self).functions@,
            final(self).functions@.last().function == func,
            final(self).functions@.last().meta.name@ == lowercase_of(func.name_model()),
            final(self).functions@.last().meta.args@ == func.args_model(),
            final(self).functions@.last().meta.return_type == func.return_type_model(),
            final(self).function_keys() == old(self).function_keys().push(
                lowercase_of(func.name_model()),
            ),
            final(self).resolve(func.name_model()) == Some(old(self).functions@.len() as int),
            final(self).schemas == old(self).schemas,
    {
        let name: String = func.name();
        let fm = FunctionMeta {
            name: to_lowercase(name.as_str()),
            args: func.args(),
            return_type: func.return_type(),
        };
        self.functions.push(FunctionEntry { meta: fm, function: func });
        assert(self.functions@.drop_last() =~= old(self).functions@);
        assert(self.function_keys() =~= old(self).function_keys().push(
            lowercase_of(func.name_model()),
        ));
    }

    /// Resolves a function name, whatever its capitalisation.
    pub fn load_function_impl(&self, function_name: &str) -> (found: Result<&F, ExecutionError>)
        ensures
            match found {
                Ok(f) => self.resolve(function_name@) is Some && *f == self.functions@[self.resolve(
                    function_name@,
                ).unwrap()].function,
                Err(e) => self.resolve(function_name@) is None && (e matches ExecutionError::UnknownFunction(
                    n,
                ) && n@ == function_name@),
            },
    {
        let wanted: String = to_lowercase(function_name);
        let mut i: usize = self.functions.len();
        while i > 0
            invariant
                i <= self.functions@.len(),
                wanted@ == lowercase_of(function_name@),
                self.resolve(function_name@) == last_named(
                    self.function_keys(),
                    wanted@,
                    i as int,
                ),
            decreases i,
        {
            if self.functions[i - 1].meta.name == wanted {
                return Ok(&self.functions[i - 1].function);
            }
            i -= 1;
        }
        Err(ExecutionError::UnknownFunction(function_name.to_owned()))
    }

    /// Evaluates an expression against a row.
    ///
    /// A column reference past the end of the row, a comparison of values of
    /// different kinds, an unknown function and a failed call each give their
    /// own error. The schema is the one the row is paired with.
    pub fn evaluate(&self, tuple: &Row, tt: &Schema, rex: &Expr) -> (result: Result<
        Value,
        ExecutionError,
    >)
        ensures
            value_result_model(result) == self.eval(tuple@, rex),
        decreases rex, 0nat,
    {
        match rex {
            Expr::BinaryExpr { left, op, right } => {
                let left_value = match self.evaluate(tuple, tt, left) {
                    Ok(v) => v,
                    Err(e) => {
                        return Err(e);
                    },
                };
                let right_value = match self.evaluate(tuple, tt, right) {
                    Ok(v) => v,
                    Err(e) => {
                        return Err(e);
                    },
                };
                compare_values(*op, &left_value, &right_value)
            },
            Expr::TupleValue(index) => {
                if *index < tuple.values.len() {
                    Ok(tuple.values[*index].clone())
                } else {
                    Err(ExecutionError::ColumnOutOfRange)
                }
            },
            Expr::Literal(value) => Ok(value.clone()),
            Expr::ScalarFunction { name, args } => {
                let arg_values = match self.evaluate_all(tuple, tt, args) {
                    Ok(values) => values,
                    Err(e) => {
                        return Err(e);
                    },
                };
                let func = match self.load_function_impl(name.as_str()) {
                    Ok(f) => f,
                    Err(_) => {
                        return Err(ExecutionError::UnknownFunction(name.clone()));
                    },
                };
                match func.execute(arg_values) {
                    Ok(value) => Ok(value),
                    Err(_) => Err(ExecutionError::InvocationFailed),
                }
            },
        }
    }

    /// Evaluates a list of expressions against a row, from left to right.
    pub fn evaluate_all(&self, tuple: &Row, tt: &Schema, exprs: &Vec<Expr>) -> (result: Result<
        Vec<Value>,
        ExecutionError,
    >)
        ensures
            match result {
                Ok(values) => self.eval_list(tuple@, exprs@, exprs@.len()) == Ok::<
                    Seq<ValueModel>,
                    ExecutionError,
                >(values_model(values@)),
                Err(e) => self.eval_list(tuple@, exprs@, exprs@.len()) == Err::<
                    Seq<ValueModel>,
                    ExecutionError,
                >(e),
            },
        decreases exprs@, 1nat,
    {
        let mut values: Vec<Value> = Vec::new();
        let mut i: usize = 0;
        assert(values_model(values@) =~= Seq::<ValueModel>::empty());
        while i < exprs.len()
            invariant
                i <= exprs@.len(),
                self.eval_list(tuple@, exprs@, i as nat) == Ok::<Seq<ValueModel>, ExecutionError>(
                    values_model(values@),
                ),
            decreases exprs@.len() - i,
        {
            let ghost before = values_model(values@);
            match self.evaluate(tuple, tt, &exprs[i]) {
                Ok(v) => {
                    values.push(v);
                    assert(values_model(values@) =~= before.push(v@));
                },
                Err(e) => {
                    proof {
                        self.eval_list_fails(tuple@, exprs@, i as nat + 1, exprs@.len());
                    }
                    return Err(e);
                },
            }
            i += 1;
        }
        Ok(values)
    }

    /// Once the evaluation of a list has failed, more expressions change nothing.
    pub proof fn eval_list_fails(&self, row: Seq<ValueModel>, exprs: Seq<Expr>, n: nat, m: nat)
        requires
            n <= m <= exprs.len(),
            self.eval_list(row, exprs, n) is Err,
        ensures
            self.eval_list(row, exprs, m) == self.eval_list(row, exprs, n),
        decreases m,
    {
        if n < m {
            self.eval_list_fails(row, exprs, n, (m - 1) as nat);
        }
    }

    /// An expression that calls the function `name` on `args`.
    pub fn udf(&self, name: &str, args: Vec<Expr>) -> (call: Expr)
        ensures
            match call {
                Expr::ScalarFunction { name: n, args: a } => n@ == name@ && a == args,
                _ => false,
            },
    {
        Expr::ScalarFunction { name: name.to_owned(), args }
    }
}

/// Evaluation has no hidden state: two evaluations of one expression, on rows
/// that hold the same values, give the same value or the same failure.
pub proof fn evaluation_is_deterministic<F: ScalarFunction>(
    ctx: &ExecutionContext<F>,
    a: Row,
    b: Row,
    rex: Expr,
    first: Result<Value, ExecutionError>,
    second: Result<Value, ExecutionError>,
)
    requires
        a@ == b@,
        value_result_model(first) == ctx.eval(a@, &rex),
        value_result_model(second) == ctx.eval(b@, &rex),
    ensures
        value_result_model(first) == value_result_model(second),
{
}

/// A copy of an expression evaluates as the expression does.
pub proof fn same_expr_evaluates_alike<F: ScalarFunction>(
    ctx: &ExecutionContext<F>,
    row: Seq<ValueModel>,
    a: &Expr,
    b: &Expr,
)
    requires
        same_expr(a, b),
    ensures
        ctx.eval(row, a) == ctx.eval(row, b),
    decreases a, 0nat,
{
    match (a, b) {
        (
            Expr::BinaryExpr { left: l1, op: o1, right: r1 },
            Expr::BinaryExpr { left: l2, op: o2, right: r2 },
        ) => {
            same_expr_evaluates_alike(ctx, row, l1, l2);
            same_expr_evaluates_alike(ctx, row, r1, r2);
        },
        (
            Expr::ScalarFunction { name: n1, args: a1 },
            Expr::ScalarFunction { name: n2, args: a2 },
        ) => {
            same_exprs_evaluate_alike(ctx, row, a1@, a2@, a1@.len());
        },
        _ => {},
    }
}

/// Copies of a list of expressions evaluate as the list does.
pub proof fn same_exprs_evaluate_alike<F: ScalarFunction>(
    ctx: &ExecutionContext<F>,
    row: Seq<ValueModel>,
    xs: Seq<Expr>,
    ys: Seq<Expr>,
    n: nat,
)
    requires
        same_exprs(xs, ys),
        n <= xs.len(),
    ensures
        ctx.eval_list(row, xs, n) == ctx.eval_list(row, ys, n),
    decreases xs, n,
{
    if n > 0 {
        same_exprs_evaluate_alike(ctx, row, xs, ys, (n - 1) as nat);
        same_expr_evaluates_alike(ctx, row, &xs[n - 1], &ys[n - 1]);
    }
}

/// A call whose one argument is itself a call hands the value of the inner
/// call to the outer function as it is: nothing is converted in between.
pub proof fn nested_call_passes_value_through<F: ScalarFunction>(
    ctx: &ExecutionContext<F>,
    row: Seq<ValueModel>,
    outer: String,
    args: Vec<Expr>,
    value: ValueModel,
)
    requires
        args@.len() == 1,
        args@[0] is ScalarFunction,
        ctx.eval(row, &args@[0]) == Ok::<ValueModel, ExecutionError>(value),
    ensures
        ctx.eval(row, &Expr::ScalarFunction { name: outer, args }) == ctx.invoke(
            outer,
            seq![value],
        ),
{
    reveal_with_fuel(ExecutionContext::eval_list, 2);
    assert(ctx.eval_list(row, args@, 1) == Ok::<Seq<ValueModel>, ExecutionError>(
        Seq::<ValueModel>::empty().push(value),
    ));
    assert(Seq::<ValueModel>::empty().push(value) =~= seq![value]);
}

/// A call of a name that no function is registered under fails as an unknown
/// function of that name, never as a failed call, once its arguments have
/// been evaluated.
pub proof fn unknown_function_is_a_resolution_error<F: ScalarFunction>(
    ctx: &ExecutionContext<F>,
    row: Seq<ValueModel>,
    name: String,
    args: Vec<Expr>,
)
    requires
        ctx.resolve(name@) is None,
        ctx.eval_list(row, args@, args@.len()) is Ok,
    ensures
        ctx.eval(row, &Expr::ScalarFunction { name, args }) == Err::<ValueModel, ExecutionError>(
            ExecutionError::UnknownFunction(name),
        ),
        ctx.eval(row, &Expr::ScalarFunction { name, args }) != Err::<ValueModel, ExecutionError>(
            ExecutionError::InvocationFailed,
        ),
{
}

/// A call of a registered function that fails on its arguments is a failed
/// call, never an unknown function.
pub proof fn failed_call_is_an_invocation_error<F: ScalarFunction>(
    ctx: &ExecutionContext<F>,
    row: Seq<ValueModel>,
    name: String,
    args: Vec<Expr>,
)
    requires
        ctx.resolve(name@) matches Some(i) && ctx.eval_list(row, args@, args@.len()) matches Ok(
            values,
        ) && ctx.functions@[i].function.outcome(values) is None,
    ensures
        ctx.eval(row, &Expr::ScalarFunction { name, args }) == Err::<ValueModel, ExecutionError>(
            ExecutionError::InvocationFailed,
        ),
{
}

} // verus!
