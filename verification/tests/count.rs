use influx_export::count::{largest_count, read_count, resolve_count};
use influx_export::error::ExportError;
use influx_export::json::{parse_json, Json, Number};

fn unsigned(n: u64) -> Json {
    Json::Number(Number::Unsigned(n))
}

#[test]
fn largest_of_equal_and_unequal_counts() {
    assert_eq!(largest_count(&vec![unsigned(10), unsigned(8), unsigned(10)]), Some(10));
    assert_eq!(largest_count(&vec![unsigned(3)]), Some(3));
    assert_eq!(largest_count(&vec![unsigned(0), unsigned(0)]), Some(0));
    assert_eq!(largest_count(&vec![unsigned(1), unsigned(u64::MAX), unsigned(2)]), Some(u64::MAX));
}

#[test]
fn largest_passes_over_what_is_no_count() {
    let counts = vec![
        Json::Text("1970-01-01T00:00:00Z".to_string()),
        unsigned(4),
        Json::Null,
        Json::Number(Number::Signed(-7)),
        Json::Number(Number::Real("9.5".to_string())),
    ];
    assert_eq!(largest_count(&counts), Some(4));
    assert_eq!(largest_count(&vec![Json::Null, Json::Bool(true)]), None);
    assert_eq!(largest_count(&Vec::new()), None);
}

#[test]
fn count_is_the_maximum_of_the_per_field_counts() {
    let text = r#"{"results":[{"series":[{"name":"m","columns":["time","count_a","count_b","count_c"],"values":[[0,10,8,10]]}]}]}"#;
    assert_eq!(read_count(text), Ok(10));
    assert_eq!(resolve_count(&parse_json(text).unwrap()), Ok(10));
}

#[test]
fn count_reads_only_the_first_row_of_the_first_series() {
    let text = r#"{"results":[{"series":[{"values":[[1,2],[50]]},{"values":[[99]]}]},{"series":[{"values":[[77]]}]}]}"#;
    assert_eq!(read_count(text), Ok(2));
}

#[test]
fn count_is_unavailable_without_a_list_of_counts() {
    let texts = [
        r#"{}"#,
        r#"{"results":[]}"#,
        r#"{"results":[{}]}"#,
        r#"{"results":[{"statement_id":0}]}"#,
        r#"{"results":[{"series":[]}]}"#,
        r#"{"results":[{"series":[{"values":[]}]}]}"#,
        r#"{"results":[{"series":[{"values":[[]]}]}]}"#,
        r#"{"results":[{"series":[{"values":[{"a":1}]}]}]}"#,
        r#"{"results":[{"series":[{"values":[["x",null]]}]}]}"#,
        r#"{"results":{"series":[{"values":[[1]]}]}}"#,
        r#"[1,2,3]"#,
        r#"null"#,
    ];
    for text in texts {
        assert_eq!(read_count(text), Err(ExportError::CountUnavailable), "response {}", text);
    }
}

#[test]
fn count_of_unreadable_text_is_a_parse_failure() {
    assert!(matches!(read_count("not json"), Err(ExportError::ParseFailure(_))));
    assert!(matches!(read_count(""), Err(ExportError::ParseFailure(_))));
}

#[test]
fn export_error_messages() {
    assert_eq!(
        ExportError::ExecutionFailure("exit status 1".to_string()).message(),
        "query failed: exit status 1"
    );
    assert_eq!(
        ExportError::ParseFailure("EOF".to_string()).message(),
        "unreadable response: EOF"
    );
    assert_eq!(ExportError::CountUnavailable.message(), "no row count in the response");
    assert_eq!(ExportError::NoProgress.message(), "no new rows before the expected count");
}
