//! The value that each column takes for one record, and the errors that a
//! record can raise.

use vstd::prelude::*;

use crate::parse::{datetime_millis_of, decimal_u32, parse_datetime_millis, parse_u32};
use crate::batch::{batch_result_view, batch_spec, build_record_batch, records_view, ColumnBatch};
use crate::record::{RecordView, WarcRecord};
use crate::schema::{warc_1_0_fields, warc_1_0_schema, FieldKind, HeaderFormat, HeaderName};

verus! {

/// One entry of a column.
#[derive(Clone, Debug, PartialEq, Eq)]
pub enum Cell {
    /// No value: the record lacks an optional header.
    Null,
    Text(String),
    UInt32(u32),
    /// Milliseconds since the epoch, in UTC.
    TimestampMillis(i64),
    Bytes(Vec<u8>),
}

/// What a `Cell` holds.
pub enum CellView {
    Null,
    Text(Seq<char>),
    UInt32(u32),
    TimestampMillis(i64),
    Bytes(Seq<u8>),
}

impl View for Cell {
    type V = CellView;

    open spec fn view(&self) -> CellView {
        match self {
            Cell::Null => CellView::Null,
            Cell::Text(s) => CellView::Text(s@),
            Cell::UInt32(n) => CellView::UInt32(*n),
            Cell::TimestampMillis(t) => CellView::TimestampMillis(*t),
            Cell::Bytes(b) => CellView::Bytes(b@),
        }
    }
}

/// Why a batch could not be produced.
#[derive(Clone, Debug, PartialEq, Eq)]
pub enum ReadError {
    /// The record source could not frame or parse a record.
    Source { message: String },
    /// A record lacks a mandatory header.
    MissingField { field: FieldKind, record_id: Option<String> },
    /// A record's header has a value that cannot be read as the column's type.
    MalformedField { field: FieldKind, record_id: Option<String>, value: String },
}

/// What a `ReadError` holds.
pub enum ReadErrorView {
    Source { message: Seq<char> },
    MissingField { field: FieldKind, record_id: Option<Seq<char>> },
    MalformedField { field: FieldKind, record_id: Option<Seq<char>>, value: Seq<char> },
}

impl View for ReadError {
    type V = ReadErrorView;

    open spec fn view(&self) -> ReadErrorView {
        match self {
            ReadError::Source { message } => ReadErrorView::Source { message: message@ },
            ReadError::MissingField { field, record_id } => ReadErrorView::MissingField {
                field: *field,
                record_id: crate::record::text_view(*record_id),
            },
            ReadError::MalformedField { field, record_id, value } => ReadErrorView::MalformedField {
                field: *field,
                record_id: crate::record::text_view(*record_id),
                value: value@,
            },
        }
    }
}

impl ReadErrorView {
    /// The column that the error concerns, if it concerns one.
    pub open spec fn field(self) -> Option<FieldKind> {
        match self {
            ReadErrorView::Source { .. } => None,
            ReadErrorView::MissingField { field, .. } => Some(field),
            ReadErrorView::MalformedField { field, .. } => Some(field),
        }
    }
}

/// The view of a cell or of the error that took its place.
pub open spec fn cell_result_view(r: Result<Cell, ReadError>) -> Result<CellView, ReadErrorView> {
    match r {
        Ok(c) => Ok(c@),
        Err(e) => Err(e@),
    }
}

/// The layout of a WARC date.
pub open spec fn warc_date_layout() -> Seq<char> {
    "%Y-%m-%dT%H:%M:%SZ"@
}

/// The error for a value `v` of `field` that cannot be read, in record `r`.
pub open spec fn malformed(field: FieldKind, r: RecordView, v: Seq<char>) -> ReadErrorView {
    ReadErrorView::MalformedField { field, record_id: r.header(HeaderName::RecordId), value: v }
}

/// The date cell for the text `v` of record `r`, given what reading `v` as
/// an instant gave.
pub open spec fn date_cell_spec(millis: Option<i64>, v: Seq<char>, r: RecordView) -> Result<
    CellView,
    ReadErrorView,
> {
    match millis {
        Some(t) => Ok(CellView::TimestampMillis(t)),
        None => Err(malformed(FieldKind::Header(HeaderName::Date), r, v)),
    }
}

/// The entry of column `kind` for record `r`, or the error that the record
/// raises there. An absent mandatory header is an error; an absent optional
/// one is a null. A present header is read as the column's type, and a value
/// that cannot be read is an error whether the header is mandatory or not.
pub open spec fn cell_spec(kind: FieldKind, r: RecordView) -> Result<CellView, ReadErrorView> {
    match kind {
        FieldKind::Body => Ok(CellView::Bytes(r.body)),
        FieldKind::Header(h) => match r.header(h) {
            None => if h.is_mandatory() {
                Err(
                    ReadErrorView::MissingField {
                        field: kind,
                        record_id: r.header(HeaderName::RecordId),
                    },
                )
            } else {
                Ok(CellView::Null)
            },
            Some(v) => match h.format() {
                HeaderFormat::Text => Ok(CellView::Text(v)),
                HeaderFormat::Count => match decimal_u32(v) {
                    Some(n) => Ok(CellView::UInt32(n)),
                    None => Err(malformed(kind, r, v)),
                },
                HeaderFormat::Instant => date_cell_spec(
                    datetime_millis_of(v, warc_date_layout()),
                    v,
                    r,
                ),
            },
        },
    }
}

fn record_id_of(record: &WarcRecord) -> (r: Option<String>)
    ensures
        crate::record::text_view(r) == record@.header(HeaderName::RecordId),
{
    match record.header(HeaderName::RecordId) {
        Some(s) => Some(s.clone()),
        None => None,
    }
}

/// The date cell for the text `value` of `record`, given what reading
/// `value` as an instant gave: that instant, or an error naming the date
/// column, the record and the value.
pub fn date_cell(millis: Option<i64>, value: &String, record: &WarcRecord) -> (r: Result<
    Cell,
    ReadError,
>)
    ensures
        cell_result_view(r) == date_cell_spec(millis, value@, record@),
{
    match millis {
        Some(t) => Ok(Cell::TimestampMillis(t)),
        None => Err(
            ReadError::MalformedField {
                field: FieldKind::Header(HeaderName::Date),
                record_id: record_id_of(record),
                value: value.clone(),
            },
        ),
    }
}

/// The entry of column `kind` for `record`, or the error it raises there.
pub fn extract_cell(kind: FieldKind, record: &WarcRecord) -> (r: Result<Cell, ReadError>)
    ensures
        cell_result_view(r) == cell_spec(kind, record@),
{
    match kind {
        FieldKind::Body => {
            let body = record.body().clone();
            assert(body@ =~= record@.body);
            Ok(Cell::Bytes(body))
        },
        FieldKind::Header(h) => match record.header(h) {
            None => {
                if h.mandatory() {
                    Err(ReadError::MissingField { field: kind, record_id: record_id_of(record) })
                } else {
                    Ok(Cell::Null)
                }
            },
            Some(v) => match h.value_format() {
                HeaderFormat::Text => Ok(Cell::Text(v.clone())),
                HeaderFormat::Count => match parse_u32(v.as_str()) {
                    Some(n) => Ok(Cell::UInt32(n)),
                    None => Err(
                        ReadError::MalformedField {
                            field: kind,
                            record_id: record_id_of(record),
                            value: v.clone(),
                        },
                    ),
                },
                HeaderFormat::Instant => {
                    let millis = parse_datetime_millis(v.as_str(), "%Y-%m-%dT%H:%M:%SZ");
                    date_cell(millis, v, record)
                },
            },
        },
    }
}

/// One record, to be laid out as a one-row batch of the WARC 1.0 columns.
pub struct RecordColumns {
    record: WarcRecord,
}

impl View for RecordColumns {
    type V = RecordView;

    closed spec fn view(&self) -> RecordView {
        self.record@
    }
}

impl RecordColumns {
    /// Wraps `record`.
    pub fn new(record: WarcRecord) -> (r: RecordColumns)
        ensures
            r@ == record@,
    {
        RecordColumns { record }
    }

    /// The one-row batch of the record under the WARC 1.0 schema, or the
    /// error of the first column that the record fails on.
    pub fn columns(self) -> (r: Result<ColumnBatch, ReadError>)
        ensures
            batch_result_view(r) == batch_spec(warc_1_0_fields(), seq![self@]),
    {
        let ghost rv = self@;
        let records: Vec<WarcRecord> = vec![self.record];
        assert(records_view(records@) =~= seq![rv]);
        build_record_batch(&warc_1_0_schema(), &records)
    }
}

} // verus!
