use ai_report_generator::state::ReportState;
use ai_report_generator::steps::{
    attach_realtime_data, clean_translation, content_start, extract_code, is_rate_limit_error,
    prepare_data, rate_limit_marked, replace_date_placeholders, research_deep, research_start,
    save_start, save_to_database, translate_html, validate_report, DateStamp, PromptSet, Reply,
};

fn date() -> DateStamp {
    DateStamp {
        day: "05".to_string(),
        month: "03".to_string(),
        year: "2025".to_string(),
    }
}

fn prompts(research: Option<&str>) -> PromptSet {
    PromptSet {
        combined_research_validation: research.map(|s| s.to_string()),
        data_validation: None,
        create_report: None,
        generate_report: None,
        translate_html: None,
        translate_js: Some("JS: {js_content}".to_string()),
    }
}

#[test]
fn rate_limit_texts() {
    assert!(is_rate_limit_error("HTTP 429 Too Many Requests"));
    assert!(is_rate_limit_error("Quota exceeded for project"));
    assert!(is_rate_limit_error("RESOURCE EXHAUSTED"));
    assert!(is_rate_limit_error("Rate Limit hit"));
    assert!(!is_rate_limit_error("internal error"));
    assert!(!rate_limit_marked("QUOTA"));
}

#[test]
fn date_placeholders_are_filled() {
    let out = replace_date_placeholders("<<@day>>/<<@month>>/<<@year>> {{DATE}} {{YEAR}}{{MONTH}}{{DAY}}", &date());
    assert_eq!(out, "05/03/2025 2025-03-05 20250305");
}

#[test]
fn empty_key_fails_preparation() {
    let state = ReportState::new("s", "", 3);
    let s = prepare_data(state, prompts(Some("p")), &date());
    assert!(!s.success);
    assert_eq!(s.error_messages, vec!["API key is invalid or empty".to_string()]);
}

#[test]
fn missing_research_prompt_fails_preparation() {
    let state = ReportState::new("s", "k", 3);
    let s = prepare_data(state, prompts(None), &date());
    assert!(!s.success);
    assert_eq!(
        s.error_messages,
        vec!["Cannot read combined research validation prompt".to_string()]
    );
}

#[test]
fn research_prompt_gets_data_or_notice() {
    let state = ReportState::new("s", "k", 3);
    let s = prepare_data(state, prompts(Some("On {{DATE}}: {{REAL_TIME_DATA}}")), &date());
    let s = attach_realtime_data(s, Some("BTC=1".to_string()));
    assert!(s.success);
    let (_, p) = research_start(s);
    assert_eq!(p, Some("On 2025-03-05: BTC=1".to_string()));

    let state = ReportState::new("s", "k", 3);
    let s = attach_realtime_data(prepare_data(state, prompts(Some("{{REAL_TIME_DATA}}")), &date()), None);
    let (_, p) = research_start(s);
    assert!(p.unwrap().contains("Real-time data không khả dụng"));
}

#[test]
fn research_reply_markers() {
    let s = research_deep(ReportState::new("s", "k", 3), Reply::Text("KẾT QUẢ KIỂM TRA: FAIL".to_string()));
    assert_eq!(s.validation_result, Some("FAIL".to_string()));
    assert!(!s.success);
    let s = research_deep(ReportState::new("s", "k", 3), Reply::Text("plain".to_string()));
    assert_eq!(s.validation_result, Some("UNKNOWN".to_string()));
    assert!(s.success);
}

#[test]
fn research_failure_kinds() {
    let s = research_deep(
        ReportState::new("s", "k", 3),
        Reply::Failed { status: Some(500), message: "boom".to_string() },
    );
    assert!(!s.rate_limit_stop);
    assert_eq!(s.error_messages, vec!["Research API call failed: boom".to_string()]);
    let s = research_deep(
        ReportState::new("s", "k", 3),
        Reply::Failed { status: Some(429), message: "slow down".to_string() },
    );
    assert!(s.rate_limit_stop);
    assert_eq!(
        s.error_messages,
        vec!["Rate limit encountered - stopping workflow".to_string()]
    );
}

#[test]
fn validation_without_content_fails() {
    let s = validate_report(ReportState::new("s", "k", 3));
    assert_eq!(s.validation_result, Some("FAIL".to_string()));
    assert_eq!(s.error_messages.len(), 1);
}

#[test]
fn validation_is_skipped_under_rate_limit() {
    let mut state = ReportState::new("s", "k", 3);
    state.rate_limit_stop = true;
    let s = validate_report(state);
    assert_eq!(s.validation_result, Some("SKIP".to_string()));
}

#[test]
fn content_prompt_uses_default_template() {
    let mut state = ReportState::new("s", "k", 3);
    state.research_content = Some("R".to_string());
    let (_, p) = content_start(state);
    assert_eq!(
        p,
        Some("Generate a professional crypto market report based on the following research:\n\n## Research Content:\nR".to_string())
    );
}

#[test]
fn extraction_needs_html() {
    let mut state = ReportState::new("s", "k", 3);
    state.report_content = Some("```css\na{}\n```".to_string());
    let s = extract_code(state);
    assert!(!s.success);
    assert_eq!(s.error_messages, vec!["Failed to extract HTML content".to_string()]);

    let mut state = ReportState::new("s", "k", 3);
    state.report_content = Some("```html\n<b>x</b>\n```\n```css\na{}\n```".to_string());
    let s = extract_code(state);
    assert!(s.success);
    assert_eq!(s.html_content, Some("<b>x</b>".to_string()));
    assert_eq!(s.css_content, Some("a{}".to_string()));
    assert_eq!(s.js_content, None);
}

#[test]
fn translations_are_cleaned() {
    assert_eq!(clean_translation("  hello  "), Some("hello".to_string()));
    assert_eq!(
        clean_translation("```html\r\n<p>a</p>\r\n<p>b</p>\r\n```"),
        Some("<p>a</p>\n<p>b</p>".to_string())
    );
    assert_eq!(clean_translation("```\n```"), Some("```\n```".to_string()));
    assert_eq!(clean_translation("   "), None);
}

#[test]
fn translation_rate_limit_stops() {
    let mut state = ReportState::new("s", "k", 3);
    state.html_content = Some("<p>x</p>".to_string());
    let (s, stop) = translate_html(state, Reply::Failed { status: Some(429), message: String::new() });
    assert!(stop);
    assert!(s.rate_limit_stop);
    assert_eq!(s.html_content_en, None);
    assert_eq!(s.error_messages, vec!["Rate limit error when translating HTML".to_string()]);
}

#[test]
fn translation_failure_leaves_field_unset() {
    let mut state = ReportState::new("s", "k", 3);
    state.html_content = Some("<p>x</p>".to_string());
    let (s, stop) = translate_html(state, Reply::Failed { status: Some(500), message: "x".to_string() });
    assert!(!stop);
    assert_eq!(s.html_content_en, None);
    assert!(s.error_messages.is_empty());
}

#[test]
fn save_needs_html_and_no_rate_limit() {
    let state = ReportState::new("s", "k", 3);
    let (s, r) = save_start(state);
    assert!(r.is_none());
    assert_eq!(s.error_messages, vec!["HTML content is missing or empty".to_string()]);

    let mut state = ReportState::new("s", "k", 3);
    state.html_content = Some("<p>x</p>".to_string());
    state.rate_limit_stop = true;
    let (s, r) = save_start(state);
    assert!(r.is_none());
    assert!(!s.success);
    assert_eq!(s.error_messages, vec!["Skipped save due to rate limit".to_string()]);
}

#[test]
fn save_outcomes() {
    let mut state = ReportState::new("s", "k", 3);
    state.html_content = Some("<p>x</p>".to_string());
    let (s, r) = save_start(state);
    assert_eq!(r.unwrap().html_content, "<p>x</p>");
    let ok = save_to_database(s, Ok(11));
    assert_eq!(ok.report_id, Some(11));
    assert!(ok.success);
    let bad = save_to_database(ReportState::new("s", "k", 3), Err("down".to_string()));
    assert_eq!(bad.error_messages, vec!["Database save error: down".to_string()]);
    assert_eq!(bad.report_id, None);
}

#[test]
fn fresh_state_is_stamped() {
    let s = ReportState::new("id", "k", 4);
    assert!(s.created_at.is_some());
    assert_eq!(s.max_attempts, 4);
    assert!(!s.has_errors());
    let d = DateStamp::today();
    assert_eq!(d.day.len(), 2);
    assert_eq!(d.month.len(), 2);
    assert!(d.day.chars().all(|c| c.is_ascii_digit()));
    assert!(d.month.chars().all(|c| c.is_ascii_digit()));
    assert!(d.year.len() >= 4);
}
