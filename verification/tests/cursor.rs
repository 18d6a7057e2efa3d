//! The cursor tracker's persisted form: writing and reading are
//! inverses, and damaged records are rejected.

use pledge_indexer::cursor::parse_cursor_record;
use pledge_indexer::cursor::render_cursor_record;

#[test]
fn a_persisted_cursor_reads_back_exactly() {
    let text = render_cursor_record(&"map_records".to_string(), 50, &"C50:opaque+token".to_string());
    let (module, height, cursor) = parse_cursor_record(&text).unwrap();
    assert_eq!(module, "map_records");
    assert_eq!(height, 50);
    assert_eq!(cursor, "C50:opaque+token");
}

#[test]
fn a_cursor_holding_line_breaks_survives() {
    let raw = "line one\nline two";
    let text = render_cursor_record(&"m".to_string(), 7, &raw.to_string());
    let (_, height, cursor) = parse_cursor_record(&text).unwrap();
    assert_eq!(height, 7);
    assert_eq!(cursor, raw);
}

#[test]
fn damaged_records_are_rejected() {
    assert!(parse_cursor_record("").is_none());
    assert!(parse_cursor_record("only-module").is_none());
    assert!(parse_cursor_record("m\n12").is_none());
    assert!(parse_cursor_record("m\nnotanumber\nc").is_none());
    assert!(parse_cursor_record("m\n\nc").is_none());
    assert!(parse_cursor_record("m\n18446744073709551616\nc").is_none());
}
