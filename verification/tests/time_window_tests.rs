use dump_db_to_parquet::schema_decl::{firehose_schema, schema_text, select_statement};
use dump_db_to_parquet::time_model::{
    date_string, parse_timestamp, start_of_previous_day, ts_string, Timestamp,
};
use dump_db_to_parquet::window::{default_window, output_filename};
use dump_db_to_parquet::ExportError;

fn ts(year: u32, month: u8, day: u8, hour: u8, minute: u8, second: u8) -> Timestamp {
    Timestamp { year, month, day, hour, minute, second }
}

#[test]
fn parse_canonical_timestamp() {
    assert_eq!(
        parse_timestamp("2024-01-01 00:00:00"),
        Some(ts(2024, 1, 1, 0, 0, 0))
    );
    assert_eq!(
        parse_timestamp("2024-01-01T00:00:00"),
        Some(ts(2024, 1, 1, 0, 0, 0))
    );
    assert_eq!(
        parse_timestamp("1999-12-31 23:59:59"),
        Some(ts(1999, 12, 31, 23, 59, 59))
    );
}

#[test]
fn parse_rejects_bad_shapes_and_dates() {
    assert_eq!(parse_timestamp(""), None);
    assert_eq!(parse_timestamp("2024-01-01"), None);
    assert_eq!(parse_timestamp("2024-01-01 00:00:00.000"), None);
    assert_eq!(parse_timestamp("2024/01/01 00:00:00"), None);
    assert_eq!(parse_timestamp("2024-13-01 00:00:00"), None);
    assert_eq!(parse_timestamp("2024-00-10 00:00:00"), None);
    assert_eq!(parse_timestamp("2024-01-32 00:00:00"), None);
    assert_eq!(parse_timestamp("2024-01-01 24:00:00"), None);
    assert_eq!(parse_timestamp("2024-01-01 00:60:00"), None);
    assert_eq!(parse_timestamp("2023-02-29 00:00:00"), None); // not a leap year
    assert_eq!(
        parse_timestamp("2024-02-29 12:00:00"),
        Some(ts(2024, 2, 29, 12, 0, 0))
    );
    assert_eq!(parse_timestamp("1900-02-29 00:00:00"), None); // century, not leap
    assert_eq!(
        parse_timestamp("2000-02-29 00:00:00"),
        Some(ts(2000, 2, 29, 0, 0, 0))
    );
}

#[test]
fn render_and_parse_round_trip() {
    let t = ts(2024, 2, 29, 7, 5, 9);
    let s = ts_string(&t);
    assert_eq!(s, "2024-02-29 07:05:09");
    assert_eq!(parse_timestamp(&s), Some(t));
    assert_eq!(date_string(&t), "2024-02-29");
    let small = ts(7, 1, 2, 0, 0, 0);
    assert_eq!(ts_string(&small), "0007-01-02 00:00:00");
    assert_eq!(parse_timestamp(&ts_string(&small)), Some(small));
}

#[test]
fn previous_day_handles_month_and_year_rollover() {
    let r = start_of_previous_day(&ts(2024, 3, 1, 10, 30, 0));
    assert_eq!(r, ts(2024, 2, 29, 0, 0, 0)); // leap year February
    let r = start_of_previous_day(&ts(2023, 3, 1, 0, 0, 1));
    assert_eq!(r, ts(2023, 2, 28, 0, 0, 0));
    let r = start_of_previous_day(&ts(2024, 1, 1, 5, 0, 0));
    assert_eq!(r, ts(2023, 12, 31, 0, 0, 0));
    let r = start_of_previous_day(&ts(2024, 5, 15, 0, 0, 0));
    assert_eq!(r, ts(2024, 5, 14, 0, 0, 0));
}

#[test]
fn default_window_is_yesterday_to_now() {
    let now = ts(2024, 1, 2, 9, 30, 0);
    let w = default_window(&now).unwrap();
    assert_eq!(w.start, ts(2024, 1, 1, 0, 0, 0));
    assert_eq!(w.end, now);
    assert_eq!(output_filename(&w), "2024-01-01.parquet");
    let bad = default_window(&ts(2024, 13, 1, 0, 0, 0));
    assert!(matches!(bad, Err(ExportError::InvalidWindow)));
}

#[test]
fn schema_text_lists_all_columns() {
    let schema = firehose_schema();
    let text = schema_text(&schema);
    assert_eq!(
        text,
        "message schema { \
         REQUIRED BINARY uri (UTF8); \
         REQUIRED BINARY created_at (UTF8); \
         REQUIRED BINARY text (UTF8); \
         REQUIRED BINARY embed (UTF8); \
         OPTIONAL BINARY langs (UTF8); \
         OPTIONAL BINARY entities (UTF8); \
         OPTIONAL BINARY facets (UTF8); \
         OPTIONAL BINARY labels (UTF8); \
         OPTIONAL BINARY reply (UTF8); \
         OPTIONAL BINARY reply_parent (UTF8); \
         OPTIONAL BINARY reply_root (UTF8); \
         OPTIONAL BINARY tags (UTF8); \
         REQUIRED BINARY py_type (UTF8); \
         REQUIRED BINARY cid (UTF8); \
         REQUIRED BINARY author (UTF8); \
         REQUIRED BINARY indexed_at (UTF8); \
         REQUIRED BINARY synctimestamp (UTF8); }"
    );
    // The schema text must be a parquet message type parquet itself accepts.
    assert!(parquet::schema::parser::parse_message_type(&text).is_ok());
}

#[test]
fn select_statement_matches_schema_order() {
    let schema = firehose_schema();
    assert_eq!(
        select_statement(&schema),
        "SELECT uri, created_at, text, embed, langs, entities, facets, labels, \
         reply, reply_parent, reply_root, tags, py_type, cid, author, indexed_at, \
         synctimestamp FROM firehoseposts WHERE indexed_at >= ? AND indexed_at < ?"
    );
}
