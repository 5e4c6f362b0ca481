use ai_report_generator::routing::{
    should_retry_css_or_continue, should_retry_html_or_continue, should_retry_interface_or_continue,
    should_retry_js_or_continue, should_retry_or_continue, RoutingDecision,
};
use ai_report_generator::state::ReportState;

#[test]
fn test_should_retry_or_continue_pass() {
    let mut state = ReportState::default();
    state.validation_result = Some("PASS".to_string());

    assert_eq!(should_retry_or_continue(&state), RoutingDecision::Continue);
}

#[test]
fn test_should_retry_or_continue_fail() {
    let mut state = ReportState::default();
    state.validation_result = Some("FAIL".to_string());
    state.current_attempt = 1;
    state.max_attempts = 3;

    assert_eq!(should_retry_or_continue(&state), RoutingDecision::Retry);
}

#[test]
fn test_should_retry_or_continue_max_attempts() {
    let mut state = ReportState::default();
    state.validation_result = Some("FAIL".to_string());
    state.current_attempt = 3;
    state.max_attempts = 3;

    assert_eq!(should_retry_or_continue(&state), RoutingDecision::End);
}

#[test]
fn test_should_retry_interface_success() {
    let mut state = ReportState::default();
    state.success = true;

    assert_eq!(
        should_retry_interface_or_continue(&state),
        RoutingDecision::Continue
    );
}

#[test]
fn test_should_retry_interface_max_attempts() {
    let mut state = ReportState::default();
    state.success = false;
    state.interface_attempt = 3;

    assert_eq!(
        should_retry_interface_or_continue(&state),
        RoutingDecision::End
    );
}

#[test]
fn pass_continues_even_past_the_limit() {
    let mut state = ReportState::default();
    state.validation_result = Some("PASS".to_string());
    state.current_attempt = 9;
    state.max_attempts = 2;
    assert_eq!(should_retry_or_continue(&state), RoutingDecision::Continue);
}

#[test]
fn missing_verdict_retries_below_the_limit() {
    let mut state = ReportState::default();
    state.current_attempt = 0;
    state.max_attempts = 1;
    assert_eq!(should_retry_or_continue(&state), RoutingDecision::Retry);
    state.current_attempt = 1;
    assert_eq!(should_retry_or_continue(&state), RoutingDecision::End);
}

#[test]
fn interface_retries_below_three() {
    let mut state = ReportState::default();
    state.success = false;
    state.interface_attempt = 2;
    assert_eq!(
        should_retry_interface_or_continue(&state),
        RoutingDecision::RetryInterface
    );
    state.success = true;
    state.interface_attempt = 7;
    assert_eq!(
        should_retry_interface_or_continue(&state),
        RoutingDecision::Continue
    );
}

#[test]
fn artifact_routes() {
    let mut state = ReportState::default();
    state.success = true;
    assert_eq!(should_retry_html_or_continue(&state), RoutingDecision::RetryHtml);
    state.html_content = Some("<p></p>".to_string());
    assert_eq!(should_retry_html_or_continue(&state), RoutingDecision::Continue);
    state.js_attempt = 3;
    assert_eq!(should_retry_js_or_continue(&state), RoutingDecision::End);
    state.css_attempt = 1;
    assert_eq!(should_retry_css_or_continue(&state), RoutingDecision::RetryCss);
}
