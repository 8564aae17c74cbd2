use vstd::prelude::*;
use crate::error::ExecutionError;
use crate::schema::{DataType, Schema, Value, ValueModel};
use crate::text::{
    double_eq, double_is_nan, double_lt, doubles_equal, doubles_less, lex_less, lex_order_is_total,
    text_less,
};

verus! {

/// The comparison operators of a binary expression.
#[derive(Clone, Copy, Debug, PartialEq, Eq, Structural)]
pub enum Operator {
    Eq,
    NotEq,
    Lt,
    LtEq,
    Gt,
    GtEq,
}

/// A scalar expression over one row.
#[derive(Debug)]
pub enum Expr {
    /// The value of the column at this position.
    TupleValue(usize),
    /// A constant.
    Literal(Value),
    /// A comparison of two expressions.
    BinaryExpr { left: Box<Expr>, op: Operator, right: Box<Expr> },
    /// A call of a registered function, by name.
    ScalarFunction { name: String, args: Vec<Expr> },
}

/// A relational query, as a tree of operators that each carry their output schema.
#[derive(Debug)]
#[allow(inconsistent_fields)]
pub enum LogicalPlan {
    EmptyRelation,
    TableScan { table_name: String, schema: Schema },
    CsvFile { filename: String, schema: Schema },
    Selection { expr: Expr, input: Box<LogicalPlan>, schema: Schema },
    Projection { expr: Vec<Expr>, input: Box<LogicalPlan>, schema: Schema },
    Limit { limit: usize, input: Box<LogicalPlan>, schema: Schema },
}

/// Whether two expressions are the same tree: node for node the same kind,
/// with the same positions, operators, names and literal values.
pub open spec fn same_expr(a: &Expr, b: &Expr) -> bool
    decreases a,
{
    match (a, b) {
        (Expr::TupleValue(i), Expr::TupleValue(j)) => i == j,
        (Expr::Literal(v), Expr::Literal(w)) => v@ == w@,
        (
            Expr::BinaryExpr { left: l1, op: o1, right: r1 },
            Expr::BinaryExpr { left: l2, op: o2, right: r2 },
        ) => o1 == o2 && same_expr(l1, l2) && same_expr(r1, r2),
        (
            Expr::ScalarFunction { name: n1, args: a1 },
            Expr::ScalarFunction { name: n2, args: a2 },
        ) => {
            &&& n1 == n2
            &&& a1@.len() == a2@.len()
            &&& forall|i: int| 0 <= i < a1@.len() ==> same_expr(&a1@[i], &a2@[i])
        },
        _ => false,
    }
}

/// Whether two lists hold the same expressions, one by one.
pub open spec fn same_exprs(xs: Seq<Expr>, ys: Seq<Expr>) -> bool {
    &&& xs.len() == ys.len()
    &&& forall|i: int| 0 <= i < xs.len() ==> same_expr(&xs[i], &ys[i])
}

/// Copies a list of expressions.
pub fn clone_exprs(exprs: &Vec<Expr>) -> (copies: Vec<Expr>)
    ensures
        same_exprs(exprs@, copies@),
    decreases exprs@, 1nat,
{
    let mut copies: Vec<Expr> = Vec::new();
    let mut i: usize = 0;
    while i < exprs.len()
        invariant
            i <= exprs@.len(),
            copies@.len() == i,
            forall|j: int| 0 <= j < i ==> same_expr(&exprs@[j], &copies@[j]),
        decreases exprs@.len() - i,
    {
        copies.push(exprs[i].duplicate());
        i += 1;
    }
    copies
}

impl Expr {
    /// A copy of the expression.
    pub fn duplicate(&self) -> (copy: Expr)
        ensures
            same_expr(self, &copy),
        decreases self, 0nat,
    {
        match self {
            Expr::TupleValue(i) => Expr::TupleValue(*i),
            Expr::Literal(v) => Expr::Literal(v.clone()),
            Expr::BinaryExpr { left, op, right } => Expr::BinaryExpr {
                left: Box::new(left.duplicate()),
                op: *op,
                right: Box::new(right.duplicate()),
            },
            Expr::ScalarFunction { name, args } => Expr::ScalarFunction {
                name: name.clone(),
                args: clone_exprs(args),
            },
        }
    }
}

impl Clone for Expr {
    fn clone(&self) -> (copy: Expr)
        ensures
            same_expr(self, &copy),
    {
        self.duplicate()
    }
}

/// Whether two plans are the same tree: operator for operator the same kind,
/// with the same names, counts, schemas and expressions.
pub open spec fn same_plan(a: &LogicalPlan, b: &LogicalPlan) -> bool
    decreases a,
{
    match (a, b) {
        (LogicalPlan::EmptyRelation, LogicalPlan::EmptyRelation) => true,
        (
            LogicalPlan::TableScan { table_name: n1, schema: s1 },
            LogicalPlan::TableScan { table_name: n2, schema: s2 },
        ) => n1@ == n2@ && s1@ == s2@,
        (
            LogicalPlan::CsvFile { filename: n1, schema: s1 },
            LogicalPlan::CsvFile { filename: n2, schema: s2 },
        ) => n1@ == n2@ && s1@ == s2@,
        (
            LogicalPlan::Selection { expr: e1, input: i1, schema: s1 },
            LogicalPlan::Selection { expr: e2, input: i2, schema: s2 },
        ) => same_expr(e1, e2) && s1@ == s2@ && same_plan(i1, i2),
        (
            LogicalPlan::Projection { expr: e1, input: i1, schema: s1 },
            LogicalPlan::Projection { expr: e2, input: i2, schema: s2 },
        ) => same_exprs(e1@, e2@) && s1@ == s2@ && same_plan(i1, i2),
        (
            LogicalPlan::Limit { limit: l1, input: i1, schema: s1 },
            LogicalPlan::Limit { limit: l2, input: i2, schema: s2 },
        ) => l1 == l2 && s1@ == s2@ && same_plan(i1, i2),
        _ => false,
    }
}

impl LogicalPlan {
    /// A copy of the plan.
    pub fn duplicate(&self) -> (copy: LogicalPlan)
        ensures
            same_plan(self, &copy),
        decreases self,
    {
        match self {
            LogicalPlan::EmptyRelation => LogicalPlan::EmptyRelation,
            LogicalPlan::TableScan { table_name, schema } => LogicalPlan::TableScan {
                table_name: table_name.clone(),
                schema: schema.clone(),
            },
            LogicalPlan::CsvFile { filename, schema } => LogicalPlan::CsvFile {
                filename: filename.clone(),
                schema: schema.clone(),
            },
            LogicalPlan::Selection { expr, input, schema } => LogicalPlan::Selection {
                expr: expr.duplicate(),
                input: Box::new(input.duplicate()),
                schema: schema.clone(),
            },
            LogicalPlan::Projection { expr, input, schema } => LogicalPlan::Projection {
                expr: clone_exprs(expr),
                input: Box::new(input.duplicate()),
                schema: schema.clone(),
            },
            LogicalPlan::Limit { limit, input, schema } => LogicalPlan::Limit {
                limit: *limit,
                input: Box::new(input.duplicate()),
                schema: schema.clone(),
            },
        }
    }
}

impl Clone for LogicalPlan {
    fn clone(&self) -> (copy: LogicalPlan)
        ensures
            same_plan(self, &copy),
    {
        self.duplicate()
    }
}

/// What the registry records of a function: its lower-cased name and its
/// declared argument and return types.
#[derive(Debug)]
pub struct FunctionMeta {
    pub name: String,
    pub args: Vec<DataType>,
    pub return_type: DataType,
}

/// The values of a list, each as a mathematical value.
pub open spec fn values_model(values: Seq<Value>) -> Seq<ValueModel> {
    Seq::new(values.len(), |i: int| values[i]@)
}

/// A scalar function that can be registered and called by name.
///
/// A function is taken to be pure: its name and its declared types are fixed
/// functions of the function value, and what a call gives is a fixed function
/// of the function value and the arguments. `name_model`, `args_model`,
/// `return_type_model` and `outcome` stand for these functions, of which
/// nothing else is known; `outcome` is `None` where the call fails. An implementation that keeps hidden state breaks this
/// contract, and with it everything that is stated of evaluation.
pub trait ScalarFunction: Sized {
    open spec fn name_model(&self) -> Seq<char> {
        (arbitrary::<spec_fn(Self) -> Seq<char>>())(*self)
    }

    open spec fn args_model(&self) -> Seq<DataType> {
        (arbitrary::<spec_fn(Self) -> Seq<DataType>>())(*self)
    }

    open spec fn return_type_model(&self) -> DataType {
        (arbitrary::<spec_fn(Self) -> DataType>())(*self)
    }

    open spec fn outcome(&self, args: Seq<ValueModel>) -> Option<ValueModel> {
        (arbitrary::<spec_fn(Self, Seq<ValueModel>) -> Option<ValueModel>>())(*self, args)
    }

    fn name(&self) -> (name: String)
        ensures
            name@ == self.name_model(),
    ;

    fn args(&self) -> (args: Vec<DataType>)
        ensures
            args@ == self.args_model(),
    ;

    fn return_type(&self) -> (return_type: DataType)
        ensures
            return_type == self.return_type_model(),
    ;

    fn execute(&self, args: Vec<Value>) -> (result: Result<Value, ExecutionError>)
        ensures
            match result {
                Ok(v) => self.outcome(values_model(args@)) == Some(v@),
                Err(_) => self.outcome(values_model(args@)) is None,
            },
    ;
}

/// Whether two values can be compared: they are of one kind.
pub open spec fn comparable(l: ValueModel, r: ValueModel) -> bool {
    match (l, r) {
        (ValueModel::UnsignedLong(_), ValueModel::UnsignedLong(_)) => true,
        (ValueModel::Double(_), ValueModel::Double(_)) => true,
        (ValueModel::String(_), ValueModel::String(_)) => true,
        (ValueModel::Boolean(_), ValueModel::Boolean(_)) => true,
        (ValueModel::Point(_, _), ValueModel::Point(_, _)) => true,
        _ => false,
    }
}

/// Equality of two comparable values: that of the numbers, texts or booleans
/// they hold; two points are equal where both coordinates are.
pub open spec fn value_eq(l: ValueModel, r: ValueModel) -> bool {
    match (l, r) {
        (ValueModel::UnsignedLong(a), ValueModel::UnsignedLong(b)) => a == b,
        (ValueModel::Double(a), ValueModel::Double(b)) => double_eq(a, b),
        (ValueModel::String(a), ValueModel::String(b)) => a == b,
        (ValueModel::Boolean(a), ValueModel::Boolean(b)) => a == b,
        (ValueModel::Point(a, b), ValueModel::Point(c, d)) => double_eq(a, c) && double_eq(b, d),
        _ => false,
    }
}

/// Strict order of two comparable values: numeric for numbers, lexical for
/// texts, `false` before `true` for booleans, and for points by latitude,
/// then by longitude.
pub open spec fn value_lt(l: ValueModel, r: ValueModel) -> bool {
    match (l, r) {
        (ValueModel::UnsignedLong(a), ValueModel::UnsignedLong(b)) => a < b,
        (ValueModel::Double(a), ValueModel::Double(b)) => double_lt(a, b),
        (ValueModel::String(a), ValueModel::String(b)) => lex_less(a, b),
        (ValueModel::Boolean(a), ValueModel::Boolean(b)) => !a && b,
        (ValueModel::Point(a, b), ValueModel::Point(c, d)) => double_lt(a, c) || (double_eq(a, c)
            && double_lt(b, d)),
        _ => false,
    }
}

/// What an operator makes of two comparable values.
pub open spec fn holds(op: Operator, l: ValueModel, r: ValueModel) -> bool {
    match op {
        Operator::Eq => value_eq(l, r),
        Operator::NotEq => !value_eq(l, r),
        Operator::Lt => value_lt(l, r),
        Operator::LtEq => value_lt(l, r) || value_eq(l, r),
        Operator::Gt => value_lt(r, l),
        Operator::GtEq => value_lt(r, l) || value_eq(l, r),
    }
}

/// The result of a comparison: a boolean, or a type mismatch where the two
/// values are of different kinds.
pub open spec fn compare_model(op: Operator, l: ValueModel, r: ValueModel) -> Result<
    ValueModel,
    ExecutionError,
> {
    if comparable(l, r) {
        Ok(ValueModel::Boolean(holds(op, l, r)))
    } else {
        Err(ExecutionError::TypeMismatch)
    }
}

/// A result of evaluation, its value as a mathematical value.
pub open spec fn value_result_model(r: Result<Value, ExecutionError>) -> Result<
    ValueModel,
    ExecutionError,
> {
    match r {
        Ok(v) => Ok(v@),
        Err(e) => Err(e),
    }
}

fn apply(op: Operator, less: bool, equal: bool, greater: bool) -> (r: Value)
    ensures
        r@ == ValueModel::Boolean(
            match op {
                Operator::Eq => equal,
                Operator::NotEq => !equal,
                Operator::Lt => less,
                Operator::LtEq => less || equal,
                Operator::Gt => greater,
                Operator::GtEq => greater || equal,
            },
        ),
{
    Value::Boolean(
        match op {
            Operator::Eq => equal,
            Operator::NotEq => !equal,
            Operator::Lt => less,
            Operator::LtEq => less || equal,
            Operator::Gt => greater,
            Operator::GtEq => greater || equal,
        },
    )
}

/// Compares two values with an operator.
pub fn compare_values(op: Operator, l: &Value, r: &Value) -> (result: Result<Value, ExecutionError>)
    ensures
        value_result_model(result) == compare_model(op, l@, r@),
{
    match (l, r) {
        (Value::UnsignedLong(a), Value::UnsignedLong(b)) => Ok(apply(op, *a < *b, *a == *b, *b < *a)),
        (Value::Double(a), Value::Double(b)) => Ok(
            apply(op, doubles_less(*a, *b), doubles_equal(*a, *b), doubles_less(*b, *a)),
        ),
        (Value::String(a), Value::String(b)) => Ok(
            apply(op, text_less(a.as_str(), b.as_str()), *a == *b, text_less(b.as_str(), a.as_str())),
        ),
        (Value::Boolean(a), Value::Boolean(b)) => Ok(apply(op, !*a && *b, *a == *b, !*b && *a)),
        (Value::Point(a, b), Value::Point(c, d)) => {
            let first: bool = doubles_equal(*a, *c);
            Ok(
                apply(
                    op,
                    doubles_less(*a, *c) || (first && doubles_less(*b, *d)),
                    first && doubles_equal(*b, *d),
                    doubles_less(*c, *a) || (first && doubles_less(*d, *b)),
                ),
            )
        },
        _ => Err(ExecutionError::TypeMismatch),
    }
}

/// Whether a value holds no NaN.
pub open spec fn is_ordered(v: ValueModel) -> bool {
    match v {
        ValueModel::Double(a) => !double_is_nan(a),
        ValueModel::Point(a, b) => !double_is_nan(a) && !double_is_nan(b),
        _ => true,
    }
}

/// Two values of one kind always compare to a boolean, under every operator.
pub proof fn same_kind_compares_to_a_boolean(op: Operator, l: ValueModel, r: ValueModel)
    requires
        comparable(l, r),
    ensures
        compare_model(op, l, r) == Ok::<ValueModel, ExecutionError>(
            ValueModel::Boolean(holds(op, l, r)),
        ),
{
}

/// On values of one kind that hold no NaN the six operators are those of one
/// total order: `!=` negates `==`, `>=` negates `<`, `<=` negates `>`, and
/// `>` is `<` with the sides exchanged.
pub proof fn operators_agree(l: ValueModel, r: ValueModel)
    requires
        comparable(l, r),
        is_ordered(l),
        is_ordered(r),
    ensures
        holds(Operator::NotEq, l, r) == !holds(Operator::Eq, l, r),
        holds(Operator::GtEq, l, r) == !holds(Operator::Lt, l, r),
        holds(Operator::LtEq, l, r) == !holds(Operator::Gt, l, r),
        holds(Operator::Gt, l, r) == holds(Operator::Lt, r, l),
{
    match (l, r) {
        (ValueModel::String(a), ValueModel::String(b)) => {
            lex_order_is_total(a, b);
            lex_order_is_total(b, a);
        },
        _ => {},
    }
}

} // verus!
