//! The columns of a batch: which WARC header (or the body) each one holds,
//! its type, and whether it may hold nulls.

use vstd::prelude::*;

verus! {

/// The number of WARC 1.0 headers that a record can carry.
pub const HEADER_COUNT: usize = 19;

/// A WARC 1.0 named header field.
#[derive(Clone, Copy, Debug, PartialEq, Eq, Structural)]
pub enum HeaderName {
    RecordId,
    ContentLength,
    Date,
    WarcType,
    ContentType,
    ConcurrentTo,
    BlockDigest,
    PayloadDigest,
    IpAddress,
    RefersTo,
    TargetUri,
    Truncated,
    WarcInfoId,
    Filename,
    Profile,
    IdentifiedPayloadType,
    SegmentNumber,
    SegmentOriginId,
    SegmentTotalLength,
}

/// How the text of a header is turned into a column value.
#[derive(Clone, Copy, Debug, PartialEq, Eq, Structural)]
pub enum HeaderFormat {
    /// The text itself.
    Text,
    /// A decimal unsigned 32-bit integer.
    Count,
    /// A `YYYY-MM-DDTHH:MM:SSZ` instant, as milliseconds since the epoch.
    Instant,
}

impl HeaderName {
    /// The position of this header's value in a record.
    pub open spec fn slot(self) -> nat {
        match self {
            HeaderName::RecordId => 0,
            HeaderName::ContentLength => 1,
            HeaderName::Date => 2,
            HeaderName::WarcType => 3,
            HeaderName::ContentType => 4,
            HeaderName::ConcurrentTo => 5,
            HeaderName::BlockDigest => 6,
            HeaderName::PayloadDigest => 7,
            HeaderName::IpAddress => 8,
            HeaderName::RefersTo => 9,
            HeaderName::TargetUri => 10,
            HeaderName::Truncated => 11,
            HeaderName::WarcInfoId => 12,
            HeaderName::Filename => 13,
            HeaderName::Profile => 14,
            HeaderName::IdentifiedPayloadType => 15,
            HeaderName::SegmentNumber => 16,
            HeaderName::SegmentOriginId => 17,
            HeaderName::SegmentTotalLength => 18,
        }
    }

    /// Whether every well-formed record carries this header.
    pub open spec fn is_mandatory(self) -> bool {
        match self {
            HeaderName::RecordId | HeaderName::ContentLength | HeaderName::Date
            | HeaderName::WarcType => true,
            _ => false,
        }
    }

    /// How the header's text is read.
    pub open spec fn format(self) -> HeaderFormat {
        match self {
            HeaderName::ContentLength | HeaderName::SegmentNumber
            | HeaderName::SegmentTotalLength => HeaderFormat::Count,
            HeaderName::Date => HeaderFormat::Instant,
            _ => HeaderFormat::Text,
        }
    }

    /// The position of this header's value in a record.
    pub fn index(&self) -> (r: usize)
        ensures
            r as nat == self.slot(),
            r < HEADER_COUNT,
    {
        match self {
            HeaderName::RecordId => 0,
            HeaderName::ContentLength => 1,
            HeaderName::Date => 2,
            HeaderName::WarcType => 3,
            HeaderName::ContentType => 4,
            HeaderName::ConcurrentTo => 5,
            HeaderName::BlockDigest => 6,
            HeaderName::PayloadDigest => 7,
            HeaderName::IpAddress => 8,
            HeaderName::RefersTo => 9,
            HeaderName::TargetUri => 10,
            HeaderName::Truncated => 11,
            HeaderName::WarcInfoId => 12,
            HeaderName::Filename => 13,
            HeaderName::Profile => 14,
            HeaderName::IdentifiedPayloadType => 15,
            HeaderName::SegmentNumber => 16,
            HeaderName::SegmentOriginId => 17,
            HeaderName::SegmentTotalLength => 18,
        }
    }

    /// Whether every well-formed record carries this header.
    pub fn mandatory(&self) -> (r: bool)
        ensures
            r == self.is_mandatory(),
    {
        match self {
            HeaderName::RecordId | HeaderName::ContentLength | HeaderName::Date
            | HeaderName::WarcType => true,
            _ => false,
        }
    }

    /// How the header's text is read.
    pub fn value_format(&self) -> (r: HeaderFormat)
        ensures
            r == self.format(),
    {
        match self {
            HeaderName::ContentLength | HeaderName::SegmentNumber
            | HeaderName::SegmentTotalLength => HeaderFormat::Count,
            HeaderName::Date => HeaderFormat::Instant,
            _ => HeaderFormat::Text,
        }
    }
}

/// What a column holds: one header of the record, or its body.
#[derive(Clone, Copy, Debug, PartialEq, Eq, Structural)]
pub enum FieldKind {
    Header(HeaderName),
    Body,
}

/// The type of a column's values.
#[derive(Clone, Copy, Debug, PartialEq, Eq, Structural)]
pub enum ColumnType {
    Utf8,
    UInt32,
    TimestampMillis,
    Binary,
}

impl FieldKind {
    /// The column's name.
    pub open spec fn name_spec(self) -> Seq<char> {
        match self {
            FieldKind::Header(HeaderName::RecordId) => "id"@,
            FieldKind::Header(HeaderName::ContentLength) => "content_length"@,
            FieldKind::Header(HeaderName::Date) => "date"@,
            FieldKind::Header(HeaderName::WarcType) => "type"@,
            FieldKind::Header(HeaderName::ContentType) => "content_type"@,
            FieldKind::Header(HeaderName::ConcurrentTo) => "concurrent_to"@,
            FieldKind::Header(HeaderName::BlockDigest) => "block_digest"@,
            FieldKind::Header(HeaderName::PayloadDigest) => "payload_digest"@,
            FieldKind::Header(HeaderName::IpAddress) => "ip_address"@,
            FieldKind::Header(HeaderName::RefersTo) => "refers_to"@,
            FieldKind::Header(HeaderName::TargetUri) => "target_uri"@,
            FieldKind::Header(HeaderName::Truncated) => "truncated"@,
            FieldKind::Header(HeaderName::WarcInfoId) => "warc_info_id"@,
            FieldKind::Header(HeaderName::Filename) => "filename"@,
            FieldKind::Header(HeaderName::Profile) => "profile"@,
            FieldKind::Header(HeaderName::IdentifiedPayloadType) => "identified_payload_type"@,
            FieldKind::Header(HeaderName::SegmentNumber) => "segment_number"@,
            FieldKind::Header(HeaderName::SegmentOriginId) => "segment_origin_id"@,
            FieldKind::Header(HeaderName::SegmentTotalLength) => "segment_total_length"@,
            FieldKind::Body => "body"@,
        }
    }

    /// The type of the column's values.
    pub open spec fn column_type(self) -> ColumnType {
        match self {
            FieldKind::Header(h) => match h.format() {
                HeaderFormat::Text => ColumnType::Utf8,
                HeaderFormat::Count => ColumnType::UInt32,
                HeaderFormat::Instant => ColumnType::TimestampMillis,
            },
            FieldKind::Body => ColumnType::Binary,
        }
    }

    /// The column's name.
    pub fn name(&self) -> (r: String)
        ensures
            r@ == self.name_spec(),
    {
        let s = match self {
            FieldKind::Header(HeaderName::RecordId) => "id",
            FieldKind::Header(HeaderName::ContentLength) => "content_length",
            FieldKind::Header(HeaderName::Date) => "date",
            FieldKind::Header(HeaderName::WarcType) => "type",
            FieldKind::Header(HeaderName::ContentType) => "content_type",
            FieldKind::Header(HeaderName::ConcurrentTo) => "concurrent_to",
            FieldKind::Header(HeaderName::BlockDigest) => "block_digest",
            FieldKind::Header(HeaderName::PayloadDigest) => "payload_digest",
            FieldKind::Header(HeaderName::IpAddress) => "ip_address",
            FieldKind::Header(HeaderName::RefersTo) => "refers_to",
            FieldKind::Header(HeaderName::TargetUri) => "target_uri",
            FieldKind::Header(HeaderName::Truncated) => "truncated",
            FieldKind::Header(HeaderName::WarcInfoId) => "warc_info_id",
            FieldKind::Header(HeaderName::Filename) => "filename",
            FieldKind::Header(HeaderName::Profile) => "profile",
            FieldKind::Header(HeaderName::IdentifiedPayloadType) => "identified_payload_type",
            FieldKind::Header(HeaderName::SegmentNumber) => "segment_number",
            FieldKind::Header(HeaderName::SegmentOriginId) => "segment_origin_id",
            FieldKind::Header(HeaderName::SegmentTotalLength) => "segment_total_length",
            FieldKind::Body => "body",
        };
        String::from_str(s)
    }

    /// The type of the column's values.
    pub fn data_type(&self) -> (r: ColumnType)
        ensures
            r == self.column_type(),
    {
        match self {
            FieldKind::Header(h) => match h.value_format() {
                HeaderFormat::Text => ColumnType::Utf8,
                HeaderFormat::Count => ColumnType::UInt32,
                HeaderFormat::Instant => ColumnType::TimestampMillis,
            },
            FieldKind::Body => ColumnType::Binary,
        }
    }
}

/// One column of a schema: what it holds and whether it may hold nulls.
#[derive(Clone, Copy, Debug, PartialEq, Eq, Structural)]
pub struct SchemaField {
    pub kind: FieldKind,
    pub nullable: bool,
}

/// The kinds of the WARC 1.0 columns, in order: the mandatory headers, the
/// optional ones, then the body.
pub open spec fn warc_1_0_kinds() -> Seq<FieldKind> {
    seq![
        FieldKind::Header(HeaderName::RecordId),
        FieldKind::Header(HeaderName::ContentLength),
        FieldKind::Header(HeaderName::Date),
        FieldKind::Header(HeaderName::WarcType),
        FieldKind::Header(HeaderName::ContentType),
        FieldKind::Header(HeaderName::ConcurrentTo),
        FieldKind::Header(HeaderName::BlockDigest),
        FieldKind::Header(HeaderName::PayloadDigest),
        FieldKind::Header(HeaderName::IpAddress),
        FieldKind::Header(HeaderName::RefersTo),
        FieldKind::Header(HeaderName::TargetUri),
        FieldKind::Header(HeaderName::Truncated),
        FieldKind::Header(HeaderName::WarcInfoId),
        FieldKind::Header(HeaderName::Filename),
        FieldKind::Header(HeaderName::Profile),
        FieldKind::Header(HeaderName::IdentifiedPayloadType),
        FieldKind::Header(HeaderName::SegmentNumber),
        FieldKind::Header(HeaderName::SegmentOriginId),
        FieldKind::Header(HeaderName::SegmentTotalLength),
        FieldKind::Body,
    ]
}

/// The WARC 1.0 schema: each column of `warc_1_0_kinds`, nullable exactly
/// when it is not a mandatory header.
pub open spec fn warc_1_0_fields() -> Seq<SchemaField> {
    warc_1_0_kinds().map_values(
        |k: FieldKind|
            SchemaField {
                kind: k,
                nullable: !(k is Header && k->Header_0.is_mandatory()),
            },
    )
}

/// The WARC 1.0 schema.
pub fn warc_1_0_schema() -> (r: Vec<SchemaField>)
    ensures
        r@ == warc_1_0_fields(),
{
    let kinds: Vec<FieldKind> = vec![
        FieldKind::Header(HeaderName::RecordId),
        FieldKind::Header(HeaderName::ContentLength),
        FieldKind::Header(HeaderName::Date),
        FieldKind::Header(HeaderName::WarcType),
        FieldKind::Header(HeaderName::ContentType),
        FieldKind::Header(HeaderName::ConcurrentTo),
        FieldKind::Header(HeaderName::BlockDigest),
        FieldKind::Header(HeaderName::PayloadDigest),
        FieldKind::Header(HeaderName::IpAddress),
        FieldKind::Header(HeaderName::RefersTo),
        FieldKind::Header(HeaderName::TargetUri),
        FieldKind::Header(HeaderName::Truncated),
        FieldKind::Header(HeaderName::WarcInfoId),
        FieldKind::Header(HeaderName::Filename),
        FieldKind::Header(HeaderName::Profile),
        FieldKind::Header(HeaderName::IdentifiedPayloadType),
        FieldKind::Header(HeaderName::SegmentNumber),
        FieldKind::Header(HeaderName::SegmentOriginId),
        FieldKind::Header(HeaderName::SegmentTotalLength),
        FieldKind::Body,
    ];
    assert(kinds@ == warc_1_0_kinds());
    let mut fields: Vec<SchemaField> = Vec::new();
    let mut i: usize = 0;
    while i < kinds.len()
        invariant
            i <= kinds@.len(),
            kinds@ == warc_1_0_kinds(),
            fields@ == warc_1_0_fields().subrange(0, i as int),
        decreases kinds@.len() - i,
    {
        let k = kinds[i];
        let nullable = match k {
            FieldKind::Header(h) => !h.mandatory(),
            FieldKind::Body => true,
        };
        fields.push(SchemaField { kind: k, nullable });
        assert(fields@ =~= warc_1_0_fields().subrange(0, i + 1));
        i = i + 1;
    }
    assert(fields@ =~= warc_1_0_fields());
    fields
}

} // verus!
