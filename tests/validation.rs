use ai_report_generator::validate::{check_report_validation, validation_verdict};

fn long_text(signals: &str) -> String {
    let mut s = String::from(signals);
    while s.chars().count() < 2000 {
        s.push_str(" lorem ipsum");
    }
    s
}

#[test]
fn test_validation_pass_explicit() {
    let content = "Some content with Validation: PASS marker";
    assert_eq!(check_report_validation(content), "PASS");
}

#[test]
fn test_validation_fail_short_content() {
    let content = "Too short";
    assert_eq!(check_report_validation(content), "FAIL");
}

#[test]
fn test_validation_pass_quality() {
    let content = "Đây là bản phân tích thị trường với dữ liệu chi tiết. ".repeat(20);
    assert_eq!(check_report_validation(&content), "FAIL");
}

#[test]
fn vietnamese_marker_wins() {
    let content = "KẾT QUẢ KIỂM TRA: FAIL but validation: pass later";
    assert_eq!(check_report_validation(content), "FAIL");
}

#[test]
fn short_content_fails_with_all_signals() {
    let content = "Bitcoin market analysis: 5% up, fear and greed | BTC Price";
    assert_eq!(check_report_validation(content), "FAIL");
}

#[test]
fn four_signals_pass_when_long_enough() {
    let content = long_text("BTC market analysis up 3.5 % with fear");
    assert_eq!(check_report_validation(&content), "PASS");
}

#[test]
fn three_signals_fail_when_long_enough() {
    let content = long_text("BTC market analysis up 3.5 % today");
    assert_eq!(check_report_validation(&content), "FAIL");
}

#[test]
fn dollar_amount_counts_as_a_figure() {
    let content = long_text("btc market greed at $64000");
    assert_eq!(check_report_validation(&content), "PASS");
}

#[test]
fn verdict_uses_the_given_lower_case_text() {
    assert_eq!(validation_verdict("anything", "validation: pass"), "PASS");
    assert_eq!(validation_verdict("anything", "❌ fail"), "FAIL");
}

#[test]
fn markers_are_matched_in_any_case() {
    assert_eq!(check_report_validation("VALIDATION: PASS"), "PASS");
}
