//! A vectorized, polymorphic scalar-expression engine for columnar data.
//!
//! An untyped abstract syntax tree of expressions is type-checked against a
//! registry of functions (with generics, nullability coercion and overload
//! resolution) and then evaluated over an environment of named columns,
//! producing either a scalar or a column.

pub mod adapters;
pub mod builtins;
pub mod display;
pub mod error;
pub mod expr;
pub mod function;
pub mod property;
pub mod runtime;
pub mod type_check;
pub mod types;
pub mod values;

pub use types::DataType;
