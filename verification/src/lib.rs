//! Execution core of a small relational query engine: typed rows, scalar
//! expressions, a plan compiler and the scan, filter, project and limit
//! operators, each with a machine-checked contract.

pub mod error;
pub mod schema;
pub mod text;
pub mod expr;
pub mod context;
pub mod source;
pub mod relation;
pub mod plan;
pub mod dataframe;
pub mod stream;
