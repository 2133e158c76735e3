//! Conversion of Web ARChive (WARC) records into column-major batches.
//!
//! A [`WarcRecord`] holds the header values and the body of one record. The
//! [`IterReader`] collects records pulled from a record source into batches
//! of at most `batch_size` rows; each batch is a [`ColumnBatch`] whose columns
//! follow the schema given to the [`WarcToArrowReaderBuilder`], by default
//! the WARC 1.0 schema of [`warc_1_0_schema`].

pub mod batch;
pub mod parse;
pub mod reader;
pub mod record;
pub mod record_columns;
pub mod schema;

pub use batch::{build_record_batch, ColumnBatch};
pub use parse::parse_u32;
pub use reader::{ConfigError, IterReader, Pulled, Step, WarcToArrowReader, WarcToArrowReaderBuilder};
pub use record::{RecordView, WarcRecord};
pub use record_columns::{date_cell, extract_cell, Cell, ReadError, RecordColumns};
pub use schema::{warc_1_0_schema, ColumnType, FieldKind, HeaderName, SchemaField};
