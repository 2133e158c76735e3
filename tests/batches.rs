use warc_parquet::{
    date_cell, extract_cell, parse_u32, warc_1_0_schema, Cell, ColumnBatch, ColumnType, ConfigError,
    FieldKind, HeaderName, IterReader, Pulled, ReadError, RecordColumns, SchemaField, Step,
    WarcRecord, WarcToArrowReader, WarcToArrowReaderBuilder,
};

fn text(s: &str) -> String {
    s.to_string()
}

fn record(id: &str, body: &str) -> WarcRecord {
    WarcRecord::new()
        .with_header(HeaderName::RecordId, text(id))
        .with_header(HeaderName::WarcType, text("response"))
        .with_header(HeaderName::ContentLength, body.len().to_string())
        .with_header(HeaderName::Date, text("2020-07-08T02:52:55Z"))
        .with_body(body.as_bytes().to_vec())
}

fn reader(batch_size: usize) -> WarcToArrowReader {
    WarcToArrowReader::builder().with_batch_size(batch_size).build().unwrap()
}

/// Pulls from `items` (then from an ended source) until the collector has
/// seen the end, keeping everything it hands out.
fn run(it: &mut IterReader, items: Vec<Pulled>) -> Vec<Result<ColumnBatch, ReadError>> {
    let mut out = Vec::new();
    let mut items = items.into_iter();
    while !it.is_exhausted() {
        let item = items.next().unwrap_or(Pulled::End);
        if let Step::Emit(r) = it.feed(item) {
            out.push(r);
        }
    }
    out
}

fn column_index(batch: &ColumnBatch, name: &str) -> usize {
    batch.fields().iter().position(|f| f.kind.name() == name).unwrap()
}

fn cell(batch: &ColumnBatch, name: &str, row: usize) -> Cell {
    batch.column(column_index(batch, name))[row].clone()
}

#[test]
fn single_record_round_trip() {
    let r = WarcRecord::new()
        .with_header(HeaderName::RecordId, text("<urn:test:r0>"))
        .with_header(HeaderName::WarcType, text("response"))
        .with_header(HeaderName::ContentLength, text("13"))
        .with_header(HeaderName::Date, text("2020-07-08T02:52:55Z"))
        .with_body(b"Hello, world!".to_vec());
    let mut it = reader(1024).iter_reader();
    let out = run(&mut it, vec![Pulled::Record(r)]);
    assert_eq!(out.len(), 1);
    let batch = out[0].as_ref().unwrap();
    assert_eq!(batch.num_rows(), 1);
    assert_eq!(cell(batch, "type", 0), Cell::Text(text("response")));
    assert_eq!(cell(batch, "body", 0), Cell::Bytes(b"Hello, world!".to_vec()));
    assert_eq!(cell(batch, "id", 0), Cell::Text(text("<urn:test:r0>")));
    assert_eq!(cell(batch, "content_length", 0), Cell::UInt32(13));
    assert_eq!(cell(batch, "date", 0), Cell::TimestampMillis(1594176775000));
}

#[test]
fn two_records_one_per_batch() {
    let mut it = reader(1).iter_reader();
    let out = run(
        &mut it,
        vec![Pulled::Record(record("<urn:a>", "a")), Pulled::Record(record("<urn:b>", "bb"))],
    );
    assert_eq!(out.len(), 2);
    let first = out[0].as_ref().unwrap();
    let second = out[1].as_ref().unwrap();
    assert_eq!(first.num_rows(), 1);
    assert_eq!(second.num_rows(), 1);
    assert_eq!(cell(first, "id", 0), Cell::Text(text("<urn:a>")));
    assert_eq!(cell(second, "id", 0), Cell::Text(text("<urn:b>")));
}

#[test]
fn source_error_on_third_item_drops_gathered_rows() {
    let mut it = reader(3).iter_reader();
    assert!(matches!(it.feed(Pulled::Record(record("<urn:a>", "a"))), Step::Pull));
    assert!(matches!(it.feed(Pulled::Record(record("<urn:b>", "b"))), Step::Pull));
    match it.feed(Pulled::Failed(text("bad framing"))) {
        Step::Emit(Err(e)) => assert_eq!(e, ReadError::Source { message: text("bad framing") }),
        _ => panic!("expected the source error"),
    }
    // The two gathered records are gone: the next batch holds only what follows.
    let out = run(&mut it, vec![Pulled::Record(record("<urn:c>", "c"))]);
    assert_eq!(out.len(), 1);
    let batch = out[0].as_ref().unwrap();
    assert_eq!(batch.num_rows(), 1);
    assert_eq!(cell(batch, "id", 0), Cell::Text(text("<urn:c>")));
}

#[test]
fn rows_are_conserved_and_batches_full_but_last() {
    let items: Vec<Pulled> = (0..5)
        .map(|i| Pulled::Record(record(&format!("<urn:r{}>", i), "x")))
        .collect();
    let mut it = reader(2).iter_reader();
    let out = run(&mut it, items);
    let sizes: Vec<usize> = out.iter().map(|b| b.as_ref().unwrap().num_rows()).collect();
    assert_eq!(sizes, vec![2, 2, 1]);
    assert_eq!(sizes.iter().sum::<usize>(), 5);
    let ids: Vec<Cell> = out
        .iter()
        .flat_map(|b| {
            let b = b.as_ref().unwrap();
            (0..b.num_rows()).map(move |i| cell(b, "id", i))
        })
        .collect();
    let expected: Vec<Cell> = (0..5).map(|i| Cell::Text(format!("<urn:r{}>", i))).collect();
    assert_eq!(ids, expected);
}

#[test]
fn exact_multiple_of_batch_size_gives_no_empty_batch() {
    let items: Vec<Pulled> = (0..4)
        .map(|i| Pulled::Record(record(&format!("<urn:r{}>", i), "x")))
        .collect();
    let mut it = reader(2).iter_reader();
    let out = run(&mut it, items);
    let sizes: Vec<usize> = out.iter().map(|b| b.as_ref().unwrap().num_rows()).collect();
    assert_eq!(sizes, vec![2, 2]);
}

#[test]
fn empty_source_gives_no_batch() {
    let mut it = reader(4).iter_reader();
    assert!(matches!(it.feed(Pulled::End), Step::Done));
    assert!(it.is_exhausted());
    let mut again = reader(4).iter_reader();
    assert!(run(&mut again, vec![]).is_empty());
}

#[test]
fn columns_follow_the_schema() {
    let mut it = reader(8).iter_reader();
    let out = run(&mut it, vec![Pulled::Record(record("<urn:a>", "a"))]);
    let batch = out[0].as_ref().unwrap();
    let names: Vec<String> = batch.fields().iter().map(|f| f.kind.name()).collect();
    let expected = vec![
        "id", "content_length", "date", "type", "content_type", "concurrent_to", "block_digest",
        "payload_digest", "ip_address", "refers_to", "target_uri", "truncated", "warc_info_id",
        "filename", "profile", "identified_payload_type", "segment_number", "segment_origin_id",
        "segment_total_length", "body",
    ];
    assert_eq!(names, expected);
    assert_eq!(batch.num_columns(), 20);
    for j in 0..batch.num_columns() {
        assert_eq!(batch.column(j).len(), 1);
    }
}

#[test]
fn custom_schema_orders_columns() {
    let schema = vec![
        SchemaField { kind: FieldKind::Body, nullable: true },
        SchemaField { kind: FieldKind::Header(HeaderName::RecordId), nullable: false },
    ];
    let mut it = WarcToArrowReaderBuilder::new()
        .with_schema(schema.clone())
        .with_batch_size(4)
        .build()
        .unwrap()
        .iter_reader();
    let out = run(&mut it, vec![Pulled::Record(record("<urn:a>", "abc"))]);
    let batch = out[0].as_ref().unwrap();
    assert_eq!(batch.fields(), &schema);
    assert_eq!(batch.column(0)[0], Cell::Bytes(b"abc".to_vec()));
    assert_eq!(batch.column(1)[0], Cell::Text(text("<urn:a>")));
}

#[test]
fn absent_optional_header_is_null() {
    let r = record("<urn:a>", "a").with_header(HeaderName::Filename, text("x.warc"));
    let mut it = reader(8).iter_reader();
    let out = run(&mut it, vec![Pulled::Record(r)]);
    let batch = out[0].as_ref().unwrap();
    assert_eq!(cell(batch, "filename", 0), Cell::Text(text("x.warc")));
    assert_eq!(cell(batch, "content_type", 0), Cell::Null);
    assert_eq!(cell(batch, "segment_number", 0), Cell::Null);
    assert_eq!(cell(batch, "segment_total_length", 0), Cell::Null);
}

#[test]
fn empty_optional_header_is_empty_text_not_null() {
    let r = record("<urn:a>", "a").with_header(HeaderName::Profile, text(""));
    let batch = RecordColumns::new(r).columns().unwrap();
    assert_eq!(cell(&batch, "profile", 0), Cell::Text(text("")));
}

#[test]
fn missing_mandatory_header_fails_the_batch() {
    let r = WarcRecord::new()
        .with_header(HeaderName::WarcType, text("response"))
        .with_header(HeaderName::ContentLength, text("1"))
        .with_header(HeaderName::Date, text("2020-07-08T02:52:55Z"));
    let mut it = reader(8).iter_reader();
    let out = run(&mut it, vec![Pulled::Record(record("<urn:ok>", "a")), Pulled::Record(r)]);
    assert_eq!(out.len(), 1);
    assert_eq!(
        out[0].as_ref().unwrap_err(),
        &ReadError::MissingField { field: FieldKind::Header(HeaderName::RecordId), record_id: None }
    );
}

#[test]
fn missing_type_names_the_record() {
    let r = WarcRecord::new()
        .with_header(HeaderName::RecordId, text("<urn:a>"))
        .with_header(HeaderName::ContentLength, text("1"))
        .with_header(HeaderName::Date, text("2020-07-08T02:52:55Z"));
    assert_eq!(
        RecordColumns::new(r).columns().unwrap_err(),
        ReadError::MissingField {
            field: FieldKind::Header(HeaderName::WarcType),
            record_id: Some(text("<urn:a>")),
        }
    );
}

#[test]
fn malformed_content_length_fails_the_batch() {
    let r = record("<urn:a>", "a").with_header(HeaderName::ContentLength, text("twelve"));
    assert_eq!(
        RecordColumns::new(r).columns().unwrap_err(),
        ReadError::MalformedField {
            field: FieldKind::Header(HeaderName::ContentLength),
            record_id: Some(text("<urn:a>")),
            value: text("twelve"),
        }
    );
}

#[test]
fn malformed_date_fails_the_batch() {
    let r = record("<urn:a>", "a").with_header(HeaderName::Date, text("2020-13-08T02:52:55Z"));
    assert_eq!(
        RecordColumns::new(r).columns().unwrap_err(),
        ReadError::MalformedField {
            field: FieldKind::Header(HeaderName::Date),
            record_id: Some(text("<urn:a>")),
            value: text("2020-13-08T02:52:55Z"),
        }
    );
}

#[test]
fn malformed_segment_number_fails_the_batch() {
    let r = record("<urn:a>", "a").with_header(HeaderName::SegmentNumber, text("-1"));
    assert_eq!(
        RecordColumns::new(r).columns().unwrap_err(),
        ReadError::MalformedField {
            field: FieldKind::Header(HeaderName::SegmentNumber),
            record_id: Some(text("<urn:a>")),
            value: text("-1"),
        }
    );
}

#[test]
fn segment_headers_are_read_independently() {
    let r = record("<urn:a>", "a")
        .with_header(HeaderName::SegmentNumber, text("2"))
        .with_header(HeaderName::SegmentTotalLength, text("4096"));
    let batch = RecordColumns::new(r).columns().unwrap();
    assert_eq!(cell(&batch, "segment_number", 0), Cell::UInt32(2));
    assert_eq!(cell(&batch, "segment_total_length", 0), Cell::UInt32(4096));
    let only_total = record("<urn:b>", "b").with_header(HeaderName::SegmentTotalLength, text("7"));
    let batch = RecordColumns::new(only_total).columns().unwrap();
    assert_eq!(cell(&batch, "segment_number", 0), Cell::Null);
    assert_eq!(cell(&batch, "segment_total_length", 0), Cell::UInt32(7));
}

#[test]
fn first_failing_column_is_reported() {
    let r = WarcRecord::new()
        .with_header(HeaderName::RecordId, text("<urn:a>"))
        .with_header(HeaderName::ContentLength, text("x"))
        .with_header(HeaderName::Date, text("nope"));
    match RecordColumns::new(r).columns().unwrap_err() {
        ReadError::MalformedField { field, .. } => {
            assert_eq!(field, FieldKind::Header(HeaderName::ContentLength))
        }
        other => panic!("unexpected error {:?}", other),
    }
}

#[test]
fn zero_batch_size_is_refused() {
    let r = WarcToArrowReader::builder().with_batch_size(0).build();
    assert_eq!(r.err(), Some(ConfigError::ZeroBatchSize));
}

#[test]
fn default_settings() {
    let reader = WarcToArrowReader::builder().build().unwrap();
    assert_eq!(reader.batch_size(), 8192);
    assert_eq!(reader.schema(), &warc_1_0_schema());
}

#[test]
fn warc_1_0_schema_shape() {
    let schema = warc_1_0_schema();
    assert_eq!(schema.len(), 20);
    for (j, f) in schema.iter().enumerate() {
        assert_eq!(f.nullable, j >= 4, "field {}", j);
    }
    assert_eq!(schema[1].kind.data_type(), ColumnType::UInt32);
    assert_eq!(schema[2].kind.data_type(), ColumnType::TimestampMillis);
    assert_eq!(schema[16].kind.data_type(), ColumnType::UInt32);
    assert_eq!(schema[18].kind.data_type(), ColumnType::UInt32);
    assert_eq!(schema[19].kind.data_type(), ColumnType::Binary);
    assert_eq!(schema[4].kind.data_type(), ColumnType::Utf8);
}

#[test]
fn parse_u32_cases() {
    assert_eq!(parse_u32("13"), Some(13));
    assert_eq!(parse_u32("+7"), Some(7));
    assert_eq!(parse_u32("007"), Some(7));
    assert_eq!(parse_u32("4294967295"), Some(4294967295));
    assert_eq!(parse_u32("4294967296"), None);
    assert_eq!(parse_u32("99999999999999999999"), None);
    assert_eq!(parse_u32(""), None);
    assert_eq!(parse_u32("+"), None);
    assert_eq!(parse_u32("-1"), None);
    assert_eq!(parse_u32("12a"), None);
    assert_eq!(parse_u32(" 1"), None);
    for s in ["0", "1", "42", "+0", "4294967295", "x", "", "1 "] {
        assert_eq!(parse_u32(s), s.parse::<u32>().ok(), "{:?}", s);
    }
}

#[test]
fn date_cell_from_parsed_value() {
    let r = record("<urn:a>", "a");
    assert_eq!(date_cell(Some(5), &text("whatever"), &r), Ok(Cell::TimestampMillis(5)));
    assert_eq!(
        date_cell(None, &text("bad"), &r),
        Err(ReadError::MalformedField {
            field: FieldKind::Header(HeaderName::Date),
            record_id: Some(text("<urn:a>")),
            value: text("bad"),
        })
    );
}

#[test]
fn date_header_is_read_as_epoch_millis() {
    let r = record("<urn:a>", "a").with_header(HeaderName::Date, text("1970-01-01T00:00:01Z"));
    assert_eq!(
        extract_cell(FieldKind::Header(HeaderName::Date), &r),
        Ok(Cell::TimestampMillis(1000))
    );
}

#[test]
fn record_header_replacement() {
    let r = WarcRecord::new()
        .with_header(HeaderName::Profile, text("a"))
        .with_header(HeaderName::Profile, text("b"));
    assert_eq!(r.header(HeaderName::Profile), Some(&text("b")));
    assert_eq!(r.header(HeaderName::Filename), None);
    assert!(r.body().is_empty());
}


#[test]
fn batches_stay_full_around_a_source_error() {
    let items = vec![
        Pulled::Record(record("<urn:a>", "a")),
        Pulled::Failed(text("truncated record")),
        Pulled::Record(record("<urn:b>", "b")),
        Pulled::Record(record("<urn:c>", "c")),
        Pulled::Record(record("<urn:d>", "d")),
    ];
    let mut it = reader(2).iter_reader();
    let out = run(&mut it, items);
    assert_eq!(out.len(), 3);
    assert_eq!(out[0].as_ref().unwrap_err(), &ReadError::Source { message: text("truncated record") });
    assert_eq!(out[1].as_ref().unwrap().num_rows(), 2);
    assert_eq!(out[2].as_ref().unwrap().num_rows(), 1);
    assert_eq!(cell(out[1].as_ref().unwrap(), "id", 0), Cell::Text(text("<urn:b>")));
    assert_eq!(cell(out[2].as_ref().unwrap(), "id", 0), Cell::Text(text("<urn:d>")));
}
