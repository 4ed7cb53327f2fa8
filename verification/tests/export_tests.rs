use dump_db_to_parquet::export::run_export;
use dump_db_to_parquet::record::{decode_row, FirehosePost};
use dump_db_to_parquet::sink::{write_to_parquet, StreamingSink};
use dump_db_to_parquet::time_model::Timestamp;
use dump_db_to_parquet::window::{make_window, output_filename, ExportWindow};
use dump_db_to_parquet::ExportError;

use parquet::file::reader::{FileReader, SerializedFileReader};
use parquet::record::Field;

fn ts(year: u32, month: u8, day: u8, hour: u8, minute: u8, second: u8) -> Timestamp {
    Timestamp { year, month, day, hour, minute, second }
}

fn day_window(y: u32, m: u8, d: u8, d2: u8) -> ExportWindow {
    make_window(ts(y, m, d, 0, 0, 0), ts(y, m, d2, 0, 0, 0)).unwrap()
}

/// A raw row as the store would hand it over, with the given uri and
/// indexed_at text, every other REQUIRED field filled, OPTIONAL fields null
/// except langs.
fn raw_row(uri: &str, indexed_at: &str) -> Vec<Option<String>> {
    vec![
        Some(uri.to_string()),
        Some("2024-01-01T00:00:00.000Z".to_string()),
        Some("hello world".to_string()),
        Some("{}".to_string()),
        Some("en".to_string()),
        None,
        None,
        None,
        None,
        None,
        None,
        None,
        Some("app.bsky.feed.post".to_string()),
        Some("cid123".to_string()),
        Some("did:plc:alice".to_string()),
        Some(indexed_at.to_string()),
        Some("2024-01-01 00:00:05".to_string()),
    ]
}

fn read_rows_back(bytes: Vec<u8>) -> Vec<Vec<(String, Option<String>)>> {
    let reader = SerializedFileReader::new(bytes::Bytes::from(bytes)).unwrap();
    let mut out = Vec::new();
    for row in reader.get_row_iter(None).unwrap() {
        let row = row.unwrap();
        let mut cells = Vec::new();
        for (name, field) in row.get_column_iter() {
            let v = match field {
                Field::Str(s) => Some(s.clone()),
                Field::Bytes(b) => Some(String::from_utf8(b.data().to_vec()).unwrap()),
                Field::Null => None,
                other => panic!("unexpected field type: {other:?}"),
            };
            cells.push((name.clone(), v));
        }
        out.push(cells);
    }
    out
}

#[test]
fn scenario_one_day_window_three_rows() {
    // window = [2024-01-01T00:00:00, 2024-01-02T00:00:00), 3 matching rows.
    let w = day_window(2024, 1, 1, 2);
    let rows = vec![
        raw_row("at://a/1", "2024-01-01 00:00:00"),
        raw_row("at://a/2", "2024-01-01 12:30:00"),
        raw_row("at://a/3", "2024-01-01 23:59:59"),
    ];
    let (bytes, report) = run_export(&rows, &w, 1000, false).unwrap();
    assert_eq!(report.rows, 3);
    assert_eq!(report.groups, 1);
    assert_eq!(output_filename(&w), "2024-01-01.parquet");
    let back = read_rows_back(bytes);
    assert_eq!(back.len(), 3);
    assert_eq!(back[0][0], ("uri".to_string(), Some("at://a/1".to_string())));
    assert_eq!(back[1][0].1, Some("at://a/2".to_string()));
    assert_eq!(back[2][0].1, Some("at://a/3".to_string()));
}

#[test]
fn window_filters_exactly() {
    // Rows at the boundaries: start is included, end is excluded; rows
    // before and after never appear; in-window rows appear exactly once.
    let w = day_window(2024, 1, 1, 2);
    let rows = vec![
        raw_row("at://early", "2023-12-31 23:59:59"),
        raw_row("at://at-start", "2024-01-01 00:00:00"),
        raw_row("at://inside", "2024-01-01 10:00:00"),
        raw_row("at://at-end", "2024-01-02 00:00:00"),
        raw_row("at://late", "2024-01-03 00:00:00"),
    ];
    let (bytes, report) = run_export(&rows, &w, 10, false).unwrap();
    assert_eq!(report.rows, 2);
    let back = read_rows_back(bytes);
    let uris: Vec<Option<String>> = back.iter().map(|r| r[0].1.clone()).collect();
    assert_eq!(
        uris,
        vec![Some("at://at-start".to_string()), Some("at://inside".to_string())]
    );
}

#[test]
fn round_trip_field_values() {
    // Reading the produced file back reconstructs each field value
    // byte-for-byte, nulls included.
    let w = day_window(2024, 1, 1, 2);
    let rows = vec![raw_row("at://rt/1", "2024-01-01 08:15:30")];
    let (bytes, _) = run_export(&rows, &w, 5, false).unwrap();
    let back = read_rows_back(bytes);
    assert_eq!(back.len(), 1);
    let names: Vec<String> = back[0].iter().map(|c| c.0.clone()).collect();
    assert_eq!(
        names,
        vec![
            "uri",
            "created_at",
            "text",
            "embed",
            "langs",
            "entities",
            "facets",
            "labels",
            "reply",
            "reply_parent",
            "reply_root",
            "tags",
            "py_type",
            "cid",
            "author",
            "indexed_at",
            "synctimestamp"
        ]
    );
    let r = &back[0];
    assert_eq!(r[0].1, Some("at://rt/1".to_string()));
    assert_eq!(r[1].1, Some("2024-01-01T00:00:00.000Z".to_string()));
    assert_eq!(r[2].1, Some("hello world".to_string()));
    assert_eq!(r[3].1, Some("{}".to_string()));
    assert_eq!(r[4].1, Some("en".to_string()));
    for j in 5..12 {
        assert_eq!(r[j].1, None);
    }
    assert_eq!(r[12].1, Some("app.bsky.feed.post".to_string()));
    assert_eq!(r[13].1, Some("cid123".to_string()));
    assert_eq!(r[14].1, Some("did:plc:alice".to_string()));
    assert_eq!(r[15].1, Some("2024-01-01 08:15:30".to_string()));
    assert_eq!(r[16].1, Some("2024-01-01 00:00:05".to_string()));
}

#[test]
fn t_separated_timestamp_preserved_byte_for_byte() {
    // A source timestamp with the T separator still filters correctly and
    // comes back from the file exactly as it arrived.
    let w = day_window(2024, 1, 1, 2);
    let rows = vec![
        raw_row("at://t/0", "2024-01-01T05:06:07"),
        raw_row("at://t/out", "2024-01-02T00:00:00"),
    ];
    let (bytes, report) = run_export(&rows, &w, 10, false).unwrap();
    assert_eq!(report.rows, 1);
    let back = read_rows_back(bytes);
    assert_eq!(back.len(), 1);
    assert_eq!(back[0][15].1, Some("2024-01-01T05:06:07".to_string()));
}

#[test]
fn required_field_empty_fails_with_position() {
    // A null/empty REQUIRED field aborts the export with the row's ordinal
    // position and no bytes are produced.
    let w = day_window(2024, 1, 1, 2);
    let mut bad = raw_row("at://bad", "2024-01-01 01:00:00");
    bad[2] = Some(String::new()); // empty REQUIRED `text`
    let rows = vec![raw_row("at://good", "2024-01-01 00:30:00"), bad];
    let r = run_export(&rows, &w, 10, false);
    assert!(matches!(r, Err(ExportError::RowDecodeError(1))));
}

#[test]
fn required_field_null_fails() {
    let w = day_window(2024, 1, 1, 2);
    let mut bad = raw_row("at://bad", "2024-01-01 01:00:00");
    bad[13] = None; // null REQUIRED `cid`
    let r = run_export(&vec![bad], &w, 10, false);
    assert!(matches!(r, Err(ExportError::RowDecodeError(0))));
}

#[test]
fn bad_timestamp_fails_decode() {
    let row = raw_row("at://bad-ts", "2024-02-30 01:00:00"); // no Feb 30
    let r = decode_row(&row, 7);
    assert!(matches!(r, Err(ExportError::RowDecodeError(7))));
}

#[test]
fn destination_exists_fails_second_run() {
    // Same window, destination already present: the second run must fail
    // with DestinationExists and the name is the same both times.
    let w = day_window(2024, 1, 1, 2);
    let rows = vec![raw_row("at://a/1", "2024-01-01 00:00:00")];
    let first = run_export(&rows, &w, 10, false);
    assert!(first.is_ok());
    let name_first = output_filename(&w);
    let second = run_export(&rows, &w, 10, true);
    assert!(matches!(second, Err(ExportError::DestinationExists)));
    assert_eq!(name_first, output_filename(&w));
}

#[test]
fn row_group_boundary_one_more_than_group_size() {
    // group size 3, 4 matching rows: exactly 2 row groups, sizes 3 and 1.
    let w = day_window(2024, 1, 1, 2);
    let rows = vec![
        raw_row("at://g/1", "2024-01-01 00:00:01"),
        raw_row("at://g/2", "2024-01-01 00:00:02"),
        raw_row("at://g/3", "2024-01-01 00:00:03"),
        raw_row("at://g/4", "2024-01-01 00:00:04"),
    ];
    let (bytes, report) = run_export(&rows, &w, 3, false).unwrap();
    assert_eq!(report.rows, 4);
    assert_eq!(report.groups, 2);
    let reader = SerializedFileReader::new(bytes::Bytes::from(bytes)).unwrap();
    let meta = reader.metadata();
    assert_eq!(meta.num_row_groups(), 2);
    assert_eq!(meta.row_group(0).num_rows(), 3);
    assert_eq!(meta.row_group(1).num_rows(), 1);
}

#[test]
fn empty_export_writes_schema_only() {
    let w = day_window(2024, 1, 1, 2);
    let rows: Vec<Vec<Option<String>>> = Vec::new();
    let (bytes, report) = run_export(&rows, &w, 10, false).unwrap();
    assert_eq!(report.rows, 0);
    assert_eq!(report.groups, 0);
    let reader = SerializedFileReader::new(bytes::Bytes::from(bytes)).unwrap();
    assert_eq!(reader.metadata().num_row_groups(), 0);
    assert_eq!(
        reader.metadata().file_metadata().schema_descr().num_columns(),
        17
    );
}

#[test]
fn streaming_sink_flushes_bounded_groups() {
    // The incremental sink: push one record more than the group size, get
    // exactly two row groups holding all records in push order.
    let mut sink = StreamingSink::create(3);
    for i in 0..4 {
        let row = raw_row(&format!("at://s/{i}"), "2024-01-01 00:00:01");
        let post = decode_row(&row, i).unwrap();
        sink.push(post).unwrap();
    }
    let (bytes, report) = sink.finish();
    assert_eq!(report.rows, 4);
    assert_eq!(report.groups, 2);
    let reader = SerializedFileReader::new(bytes::Bytes::from(bytes)).unwrap();
    let meta = reader.metadata();
    assert_eq!(meta.num_row_groups(), 2);
    assert_eq!(meta.row_group(0).num_rows(), 3);
    assert_eq!(meta.row_group(1).num_rows(), 1);
}

#[test]
fn streaming_sink_rejects_invalid_record() {
    // An invalid record is reported with its position and the sink keeps
    // going with what it has accepted.
    let mut sink = StreamingSink::create(10);
    let good = decode_row(&raw_row("at://s/ok", "2024-01-01 00:00:01"), 0).unwrap();
    sink.push(good).unwrap();
    let mut bad = decode_row(&raw_row("at://s/bad", "2024-01-01 00:00:02"), 1).unwrap();
    bad.cid = String::new();
    let r = sink.push(bad);
    assert!(matches!(r, Err(ExportError::RowDecodeError(1))));
    let (bytes, report) = sink.finish();
    assert_eq!(report.rows, 1);
    assert_eq!(report.groups, 1);
    let back = read_rows_back(bytes);
    assert_eq!(back.len(), 1);
    assert_eq!(back[0][0].1, Some("at://s/ok".to_string()));
}

#[test]
fn invalid_window_rejected() {
    let r = make_window(ts(2024, 1, 2, 0, 0, 0), ts(2024, 1, 1, 0, 0, 0));
    assert!(matches!(r, Err(ExportError::InvalidWindow)));
    let equal = make_window(ts(2024, 1, 1, 0, 0, 0), ts(2024, 1, 1, 0, 0, 0));
    assert!(matches!(equal, Err(ExportError::InvalidWindow)));
}

#[test]
fn write_to_parquet_rejects_invalid_record() {
    // The write path re-checks the write-time invariant itself.
    let post = FirehosePost {
        uri: String::new(), // empty REQUIRED field
        created_at: "c".to_string(),
        text: "t".to_string(),
        embed: "e".to_string(),
        langs: None,
        entities: None,
        facets: None,
        labels: None,
        reply: None,
        reply_parent: None,
        reply_root: None,
        tags: None,
        py_type: "p".to_string(),
        cid: "c".to_string(),
        author: "a".to_string(),
        indexed_at: ts(2024, 1, 1, 0, 0, 0),
        indexed_at_text: "2024-01-01 00:00:00".to_string(),
        synctimestamp: "s".to_string(),
    };
    let r = write_to_parquet(&vec![post], 10);
    assert!(matches!(r, Err(ExportError::RowDecodeError(0))));
}
