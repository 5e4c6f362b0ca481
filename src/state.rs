//! The record threaded through the report pipeline.

use vstd::prelude::*;
use crate::text::{join_strings, joined};

verus! {

/// Mutable record that the pipeline steps consume and hand back.
pub struct ReportState {
    /// Unique identifier of the run.
    pub session_id: String,
    /// Credential for the content-generation service.
    pub api_key: String,
    /// Attempts allowed to the research-validation loop.
    pub max_attempts: u32,
    /// Attempts spent by the research-validation loop.
    pub current_attempt: u32,
    pub research_analysis_prompt: Option<String>,
    pub data_validation_prompt: Option<String>,
    pub create_report_prompt: Option<String>,
    pub generate_report_prompt: Option<String>,
    pub translate_html_prompt: Option<String>,
    pub translate_js_prompt: Option<String>,
    pub research_content: Option<String>,
    pub report_content: Option<String>,
    pub html_content: Option<String>,
    pub css_content: Option<String>,
    pub js_content: Option<String>,
    pub html_content_en: Option<String>,
    pub js_content_en: Option<String>,
    /// Verdict of the last validation: `PASS`, `FAIL`, `SKIP` or `UNKNOWN`.
    pub validation_result: Option<String>,
    /// Whether the last step succeeded.
    pub success: bool,
    /// Error messages gathered so far, oldest first.
    pub error_messages: Vec<String>,
    /// Set once a rate limit was met; never cleared within a run.
    pub rate_limit_stop: bool,
    pub interface_attempt: u32,
    pub html_attempt: u32,
    pub js_attempt: u32,
    pub css_attempt: u32,
    /// Identifier given by storage to the saved report.
    pub report_id: Option<i32>,
    /// Real-time market data fetched while preparing.
    pub realtime_data: Option<String>,
    /// Creation time of the run, RFC 3339.
    pub created_at: Option<String>,
}

/// The state record with every text as its characters.
pub struct ReportStateView {
    pub session_id: Seq<char>,
    pub api_key: Seq<char>,
    pub max_attempts: u32,
    pub current_attempt: u32,
    pub research_analysis_prompt: Option<Seq<char>>,
    pub data_validation_prompt: Option<Seq<char>>,
    pub create_report_prompt: Option<Seq<char>>,
    pub generate_report_prompt: Option<Seq<char>>,
    pub translate_html_prompt: Option<Seq<char>>,
    pub translate_js_prompt: Option<Seq<char>>,
    pub research_content: Option<Seq<char>>,
    pub report_content: Option<Seq<char>>,
    pub html_content: Option<Seq<char>>,
    pub css_content: Option<Seq<char>>,
    pub js_content: Option<Seq<char>>,
    pub html_content_en: Option<Seq<char>>,
    pub js_content_en: Option<Seq<char>>,
    pub validation_result: Option<Seq<char>>,
    pub success: bool,
    pub error_messages: Seq<Seq<char>>,
    pub rate_limit_stop: bool,
    pub interface_attempt: u32,
    pub html_attempt: u32,
    pub js_attempt: u32,
    pub css_attempt: u32,
    pub report_id: Option<i32>,
    pub realtime_data: Option<Seq<char>>,
    pub created_at: Option<Seq<char>>,
}

impl View for ReportState {
    type V = ReportStateView;

    open spec fn view(&self) -> ReportStateView {
        ReportStateView {
            session_id: self.session_id@,
            api_key: self.api_key@,
            max_attempts: self.max_attempts,
            current_attempt: self.current_attempt,
            research_analysis_prompt: self.research_analysis_prompt.deep_view(),
            data_validation_prompt: self.data_validation_prompt.deep_view(),
            create_report_prompt: self.create_report_prompt.deep_view(),
            generate_report_prompt: self.generate_report_prompt.deep_view(),
            translate_html_prompt: self.translate_html_prompt.deep_view(),
            translate_js_prompt: self.translate_js_prompt.deep_view(),
            research_content: self.research_content.deep_view(),
            report_content: self.report_content.deep_view(),
            html_content: self.html_content.deep_view(),
            css_content: self.css_content.deep_view(),
            js_content: self.js_content.deep_view(),
            html_content_en: self.html_content_en.deep_view(),
            js_content_en: self.js_content_en.deep_view(),
            validation_result: self.validation_result.deep_view(),
            success: self.success,
            error_messages: self.error_messages.deep_view(),
            rate_limit_stop: self.rate_limit_stop,
            interface_attempt: self.interface_attempt,
            html_attempt: self.html_attempt,
            js_attempt: self.js_attempt,
            css_attempt: self.css_attempt,
            report_id: self.report_id,
            realtime_data: self.realtime_data.deep_view(),
            created_at: self.created_at.deep_view(),
        }
    }
}

/// The state of a fresh run: no content, no errors, counters at zero.
pub open spec fn fresh_state(
    session_id: Seq<char>,
    api_key: Seq<char>,
    max_attempts: u32,
    created_at: Seq<char>,
) -> ReportStateView {
    ReportStateView {
        session_id,
        api_key,
        max_attempts,
        current_attempt: 0,
        research_analysis_prompt: None,
        data_validation_prompt: None,
        create_report_prompt: None,
        generate_report_prompt: None,
        translate_html_prompt: None,
        translate_js_prompt: None,
        research_content: None,
        report_content: None,
        html_content: None,
        css_content: None,
        js_content: None,
        html_content_en: None,
        js_content_en: None,
        validation_result: None,
        success: false,
        error_messages: Seq::empty(),
        rate_limit_stop: false,
        interface_attempt: 0,
        html_attempt: 0,
        js_attempt: 0,
        css_attempt: 0,
        report_id: None,
        realtime_data: None,
        created_at: Some(created_at),
    }
}

/// Relies on `chrono::Utc::now` and `DateTime::to_rfc3339`: the current time as text.
#[verifier::external_body]
fn now_rfc3339() -> (r: String) {
    chrono::Utc::now().to_rfc3339()
}

impl ReportState {
    /// A fresh state for a run, stamped with the current time.
    pub fn new(session_id: &str, api_key: &str, max_attempts: u32) -> (r: ReportState)
        ensures
            r@.created_at is Some,
            r@ == fresh_state(session_id@, api_key@, max_attempts, r@.created_at->0),
    {
        let r = ReportState {
            session_id: session_id.to_string(),
            api_key: api_key.to_string(),
            max_attempts,
            current_attempt: 0,
            research_analysis_prompt: None,
            data_validation_prompt: None,
            create_report_prompt: None,
            generate_report_prompt: None,
            translate_html_prompt: None,
            translate_js_prompt: None,
            research_content: None,
            report_content: None,
            html_content: None,
            css_content: None,
            js_content: None,
            html_content_en: None,
            js_content_en: None,
            validation_result: None,
            success: false,
            error_messages: Vec::new(),
            rate_limit_stop: false,
            interface_attempt: 0,
            html_attempt: 0,
            js_attempt: 0,
            css_attempt: 0,
            report_id: None,
            realtime_data: None,
            created_at: Some(now_rfc3339()),
        };
        assert(r.error_messages.deep_view() =~= Seq::<Seq<char>>::empty());
        r
    }

    /// Appends `message` to the error list.
    pub fn add_error(&mut self, message: &str)
        ensures
            final(self)@ == (ReportStateView {
                error_messages: old(self)@.error_messages.push(message@),
                ..old(self)@
            }),
    {
        self.error_messages.push(message.to_string());
        assert(self.error_messages.deep_view() =~= old(self)@.error_messages.push(message@));
    }

    /// The recorded errors, oldest first, joined with `, `.
    pub fn error_summary(&self) -> (r: String)
        ensures
            r@ == joined(self@.error_messages, ", "@),
    {
        join_strings(&self.error_messages, ", ")
    }

    /// Whether any error was recorded.
    pub fn has_errors(&self) -> (r: bool)
        ensures
            r == (self@.error_messages.len() > 0),
    {
        self.error_messages.len() > 0
    }
}

impl Default for ReportState {
    /// A fresh state with empty identifiers and three research attempts.
    fn default() -> (r: ReportState)
        ensures
            r@.created_at is Some,
            r@ == fresh_state(Seq::empty(), Seq::empty(), 3, r@.created_at->0),
    {
        let r = ReportState::new("", "", 3);
        proof {
            reveal_strlit("");
            assert(""@ =~= Seq::<char>::empty());
        }
        r
    }
}

} // verus!
