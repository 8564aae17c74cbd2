use vstd::prelude::*;

verus! {

/// Everything that can go wrong while a plan is compiled or a row is produced.
///
/// Failures of compilation are returned by the compiler; failures of row
/// production take the place of the row they belong to.
#[derive(Debug, PartialEq, Eq)]
pub enum ExecutionError {
    /// A backing resource could not be found or read.
    IoError,
    /// The record at this position of the source is malformed.
    CsvError(usize),
    /// A record does not have as many fields as its schema has columns.
    ArityMismatch,
    /// The field of this column does not read as the column's declared type.
    FieldParse(usize),
    /// The column at this position has a type that a scan cannot produce.
    UnsupportedType(usize),
    /// The plan has no relation to execute.
    EmptyRelation,
    /// A projection holds an expression that has no output column.
    UnsupportedProjection,
    /// A column reference points past the end of the row.
    ColumnOutOfRange,
    /// Two values of different kinds, or of a kind without an order, were compared.
    TypeMismatch,
    /// A predicate evaluated to something other than a boolean.
    NonBooleanPredicate,
    /// No function is registered under the name that was called, which is this one.
    UnknownFunction(String),
    /// A function was found and failed on its arguments.
    InvocationFailed,
    /// A column of this name was asked for, and the schema has none.
    InvalidColumn(String),
}

impl Clone for ExecutionError {
    fn clone(&self) -> (copy: ExecutionError)
        ensures
            copy == *self,
    {
        match self {
            ExecutionError::IoError => ExecutionError::IoError,
            ExecutionError::CsvError(i) => ExecutionError::CsvError(*i),
            ExecutionError::ArityMismatch => ExecutionError::ArityMismatch,
            ExecutionError::FieldParse(i) => ExecutionError::FieldParse(*i),
            ExecutionError::UnsupportedType(i) => ExecutionError::UnsupportedType(*i),
            ExecutionError::EmptyRelation => ExecutionError::EmptyRelation,
            ExecutionError::UnsupportedProjection => ExecutionError::UnsupportedProjection,
            ExecutionError::ColumnOutOfRange => ExecutionError::ColumnOutOfRange,
            ExecutionError::TypeMismatch => ExecutionError::TypeMismatch,
            ExecutionError::NonBooleanPredicate => ExecutionError::NonBooleanPredicate,
            ExecutionError::UnknownFunction(name) => ExecutionError::UnknownFunction(name.clone()),
            ExecutionError::InvocationFailed => ExecutionError::InvocationFailed,
            ExecutionError::InvalidColumn(name) => ExecutionError::InvalidColumn(name.clone()),
        }
    }
}

} // verus!
