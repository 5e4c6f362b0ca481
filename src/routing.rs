//! Routing policy of the two retry loops: pure decisions over the state.

use vstd::prelude::*;
use crate::state::{ReportState, ReportStateView};
use crate::text::same_text;

verus! {

/// Where the workflow goes after a routing point.
#[derive(Debug, Clone, Copy, PartialEq, Eq, Structural)]
pub enum RoutingDecision {
    /// Run research and validation again.
    Retry,
    /// Go on to the next step.
    Continue,
    /// Stop the run.
    End,
    /// Run interface creation again.
    RetryInterface,
    /// Run HTML creation again.
    RetryHtml,
    /// Run script creation again.
    RetryJs,
    /// Run style creation again.
    RetryCss,
}

/// Attempts allowed to each interface-creation loop.
pub const MAX_INTERFACE_ATTEMPTS: u32 = 3;

/// Whether the recorded verdict is `PASS`.
pub open spec fn verdict_passed(s: ReportStateView) -> bool {
    s.validation_result == Some("PASS"@)
}

/// Decision after validation: a passing verdict continues whatever the
/// counters say; otherwise the run ends once the attempts are spent, else
/// research is retried.
pub open spec fn research_route(s: ReportStateView) -> RoutingDecision {
    if verdict_passed(s) {
        RoutingDecision::Continue
    } else if s.current_attempt >= s.max_attempts {
        RoutingDecision::End
    } else {
        RoutingDecision::Retry
    }
}

/// Decision after code extraction, with the fixed cap on interface attempts.
pub open spec fn interface_route(s: ReportStateView) -> RoutingDecision {
    if s.success {
        RoutingDecision::Continue
    } else if s.interface_attempt >= MAX_INTERFACE_ATTEMPTS {
        RoutingDecision::End
    } else {
        RoutingDecision::RetryInterface
    }
}

/// Decision after one artifact's creation step, given whether the artifact
/// is present, its attempt counter and the variant that retries it.
pub open spec fn artifact_route(
    success: bool,
    present: bool,
    attempt: u32,
    retry: RoutingDecision,
) -> RoutingDecision {
    if success && present {
        RoutingDecision::Continue
    } else if attempt >= MAX_INTERFACE_ATTEMPTS {
        RoutingDecision::End
    } else {
        retry
    }
}

/// Whether the state's verdict is `PASS`.
fn has_passed(state: &ReportState) -> (r: bool)
    ensures
        r == verdict_passed(state@),
{
    match &state.validation_result {
        Some(v) => same_text(v.as_str(), "PASS"),
        None => false,
    }
}

/// Decides what follows validation.
pub fn should_retry_or_continue(state: &ReportState) -> (r: RoutingDecision)
    ensures
        r == research_route(state@),
{
    if has_passed(state) {
        return RoutingDecision::Continue;
    }
    if state.current_attempt >= state.max_attempts {
        return RoutingDecision::End;
    }
    RoutingDecision::Retry
}

/// Decides what follows code extraction.
pub fn should_retry_interface_or_continue(state: &ReportState) -> (r: RoutingDecision)
    ensures
        r == interface_route(state@),
{
    if state.success {
        return RoutingDecision::Continue;
    }
    if state.interface_attempt >= MAX_INTERFACE_ATTEMPTS {
        return RoutingDecision::End;
    }
    RoutingDecision::RetryInterface
}

/// Decides what follows HTML creation.
pub fn should_retry_html_or_continue(state: &ReportState) -> (r: RoutingDecision)
    ensures
        r == artifact_route(
            state.success,
            state.html_content is Some,
            state.html_attempt,
            RoutingDecision::RetryHtml,
        ),
{
    if state.success && state.html_content.is_some() {
        return RoutingDecision::Continue;
    }
    if state.html_attempt >= MAX_INTERFACE_ATTEMPTS {
        return RoutingDecision::End;
    }
    RoutingDecision::RetryHtml
}

/// Decides what follows script creation.
pub fn should_retry_js_or_continue(state: &ReportState) -> (r: RoutingDecision)
    ensures
        r == artifact_route(
            state.success,
            state.js_content is Some,
            state.js_attempt,
            RoutingDecision::RetryJs,
        ),
{
    if state.success && state.js_content.is_some() {
        return RoutingDecision::Continue;
    }
    if state.js_attempt >= MAX_INTERFACE_ATTEMPTS {
        return RoutingDecision::End;
    }
    RoutingDecision::RetryJs
}

/// Decides what follows style creation.
pub fn should_retry_css_or_continue(state: &ReportState) -> (r: RoutingDecision)
    ensures
        r == artifact_route(
            state.success,
            state.css_content is Some,
            state.css_attempt,
            RoutingDecision::RetryCss,
        ),
{
    if state.success && state.css_content.is_some() {
        return RoutingDecision::Continue;
    }
    if state.css_attempt >= MAX_INTERFACE_ATTEMPTS {
        return RoutingDecision::End;
    }
    RoutingDecision::RetryCss
}

/// A passing verdict continues, whatever the attempt counters hold; a verdict
/// that does not pass ends the run once the attempts reach the maximum and
/// retries while they are below it.
pub proof fn lemma_research_routing(s: ReportStateView)
    ensures
        verdict_passed(s) ==> research_route(s) == RoutingDecision::Continue,
        !verdict_passed(s) && s.current_attempt == s.max_attempts ==> research_route(s)
            == RoutingDecision::End,
        !verdict_passed(s) && s.current_attempt < s.max_attempts ==> research_route(s)
            == RoutingDecision::Retry,
{
}

/// A successful extraction continues, whatever the counter holds; a failed one
/// ends the run at three interface attempts and retries below that.
pub proof fn lemma_interface_routing(s: ReportStateView)
    ensures
        s.success ==> interface_route(s) == RoutingDecision::Continue,
        !s.success && s.interface_attempt == 3 ==> interface_route(s) == RoutingDecision::End,
        !s.success && s.interface_attempt < 3 ==> interface_route(s)
            == RoutingDecision::RetryInterface,
{
}

} // verus!
