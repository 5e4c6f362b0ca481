use ai_report_generator::prompts::{css_root_of, get_prompt, process_prompt_placeholders};
use ai_report_generator::settings::{max_attempts_setting, parse_u32};
use ai_report_generator::state::ReportState;
use ai_report_generator::steps::data_field;

#[test]
fn palette_placeholder_is_filled() {
    assert_eq!(
        process_prompt_placeholders("a {{ @css_root }} b {{ @css_root }}", "--x: 1;"),
        "a --x: 1; b --x: 1;"
    );
    assert_eq!(process_prompt_placeholders("plain", "--x: 1;"), "plain");
}

#[test]
fn setting_wins_over_files() {
    let files = vec!["from file".to_string()];
    assert_eq!(get_prompt(Some("from env"), &files, ""), Some("from env".to_string()));
}

#[test]
fn empty_setting_falls_back_to_first_nonempty_file() {
    let files = vec![String::new(), "second {{ @css_root }}".to_string(), "third".to_string()];
    assert_eq!(get_prompt(Some(""), &files, "P"), Some("second P".to_string()));
    assert_eq!(get_prompt(None, &files, "P"), Some("second P".to_string()));
}

#[test]
fn no_source_gives_no_prompt() {
    let files = vec![String::new()];
    assert_eq!(get_prompt(None, &files, ""), None);
}

#[test]
fn css_root_block_is_extracted() {
    let css = "body{}\n:root {\n  --bg: #000;\n  --fg: #fff;\n}\n.a{}";
    assert_eq!(css_root_of(css), Some("--bg: #000;\n  --fg: #fff;".to_string()));
    assert_eq!(css_root_of(":root{}"), None);
    assert_eq!(css_root_of("no root here"), None);
    assert_eq!(css_root_of(":root x {a}\n:root{b}"), Some("b".to_string()));
}

#[test]
fn numbers_parse_as_u32() {
    assert_eq!(parse_u32("5"), Some(5));
    assert_eq!(parse_u32("+12"), Some(12));
    assert_eq!(parse_u32("4294967295"), Some(4294967295));
    assert_eq!(parse_u32("4294967296"), None);
    assert_eq!(parse_u32(""), None);
    assert_eq!(parse_u32("+"), None);
    assert_eq!(parse_u32("-1"), None);
    assert_eq!(parse_u32(" 7"), None);
}

#[test]
fn attempts_setting_defaults_to_three() {
    assert_eq!(max_attempts_setting(None), 3);
    assert_eq!(max_attempts_setting(Some("many")), 3);
    assert_eq!(max_attempts_setting(Some("5")), 5);
}

#[test]
fn data_field_is_found() {
    let fields = vec![
        ("kind".to_string(), "x".to_string()),
        ("data".to_string(), "{\"btc\":1}".to_string()),
        ("data".to_string(), "later".to_string()),
    ];
    assert_eq!(data_field(&fields), Some("{\"btc\":1}".to_string()));
    assert_eq!(data_field(&Vec::new()), None);
}

#[test]
fn error_summary_joins_errors() {
    let mut s = ReportState::new("s", "k", 3);
    assert_eq!(s.error_summary(), "");
    s.add_error("a");
    s.add_error("b");
    assert_eq!(s.error_summary(), "a, b");
}
