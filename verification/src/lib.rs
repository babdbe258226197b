//! Tools around the conversion of delimited and line-oriented text to columnar formats:
//! a reader that makes a stream without seek readable twice from its start, and the
//! application of numeric type overrides to a schema.

pub mod columns;
pub mod overrides;
pub mod schema;
pub mod seekable_reader;
pub mod text;

pub use columns::{clap_comma_separated, ColumnSet};
pub use overrides::{apply_schema_overrides, OverrideConflictError};
pub use schema::{DataType, Field, Schema};
