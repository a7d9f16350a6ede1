use s3crc::json::render_json;
use s3crc::report::{aggregate_outcomes, render_line, render_lines, ResultEntry, SourceOutcome};

fn entry(file: &str, crc64: &str) -> ResultEntry {
    ResultEntry { file: file.to_string(), crc64: crc64.to_string() }
}

#[test]
fn line_has_two_spaces_between_fields() {
    let e = entry("data.bin", "ae8b14860a799888");
    assert_eq!(render_line(&e), "ae8b14860a799888  data.bin");
}

#[test]
fn lines_keep_processing_order() {
    let entries = vec![entry("a", "1111111111111111"), entry("b", "2222222222222222")];
    let lines = render_lines(&entries);
    assert_eq!(lines, vec!["1111111111111111  a", "2222222222222222  b"]);
}

#[test]
fn aggregate_formats_successes_in_order() {
    let outcomes = vec![
        SourceOutcome::Success { source: "one".to_string(), value: 0 },
        SourceOutcome::Success { source: "two".to_string(), value: 0xAE8B14860A799888 },
    ];
    let report = aggregate_outcomes(&outcomes, false, true);
    assert_eq!(report.entries.len(), 2);
    assert_eq!(report.entries[0].file, "one");
    assert_eq!(report.entries[0].crc64, "0000000000000000");
    assert_eq!(report.entries[1].file, "two");
    assert_eq!(report.entries[1].crc64, "ae8b14860a799888");
    assert!(report.diagnostics.is_empty());
}

#[test]
fn partial_failure_keeps_the_good_source() {
    let outcomes = vec![
        SourceOutcome::Success { source: "good.txt".to_string(), value: 0 },
        SourceOutcome::Failure { message: "invalid pattern [bad: unclosed bracket".to_string() },
    ];
    let report = aggregate_outcomes(&outcomes, false, false);
    assert_eq!(report.entries.len(), 1);
    assert_eq!(report.entries[0].file, "good.txt");
    assert_eq!(report.entries[0].crc64, "AAAAAAAAAAA=");
    assert_eq!(report.diagnostics, vec!["invalid pattern [bad: unclosed bracket"]);
}

#[test]
fn failures_keep_their_order() {
    let outcomes = vec![
        SourceOutcome::Failure { message: "first".to_string() },
        SourceOutcome::Success { source: "mid".to_string(), value: 1 },
        SourceOutcome::Failure { message: "second".to_string() },
    ];
    let report = aggregate_outcomes(&outcomes, true, false);
    assert_eq!(report.entries.len(), 1);
    assert_eq!(report.entries[0].crc64, "0000000000000001");
    assert_eq!(report.diagnostics, vec!["first", "second"]);
}

#[test]
fn json_of_no_entries_is_an_empty_array() {
    assert_eq!(render_json(&Vec::new()), "[]");
}

#[test]
fn json_shape_for_two_entries() {
    let entries = vec![entry("a.txt", "ae8b14860a799888"), entry("stdin", "AAAAAAAAAAA=")];
    let expected = "[\n  {\n    \"file\": \"a.txt\",\n    \"crc64\": \"ae8b14860a799888\"\n  },\n  {\n    \"file\": \"stdin\",\n    \"crc64\": \"AAAAAAAAAAA=\"\n  }\n]";
    assert_eq!(render_json(&entries), expected);
}

#[test]
fn json_for_one_entry() {
    let entries = vec![entry("x", "0000000000000000")];
    let expected = "[\n  {\n    \"file\": \"x\",\n    \"crc64\": \"0000000000000000\"\n  }\n]";
    assert_eq!(render_json(&entries), expected);
}

#[test]
fn json_escapes_special_characters() {
    let entries = vec![entry("a\"b\\c\nd\te\u{1}", "0000000000000000")];
    let rendered = render_json(&entries);
    assert!(rendered.contains("a\\\"b\\\\c\\nd\\te\\u0001"));
}
