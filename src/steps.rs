//! The pipeline steps as transitions of the state record.
//!
//! A step that needs the generation service is split in two: a start that
//! either builds the prompt to send or settles the step without a call, and a
//! function that takes the service's reply. Steps never fail out of the
//! pipeline: every failure is written into the state.

use vstd::prelude::*;
use crate::extract::{extract_code_blocks, extracted};
use crate::models::{NewCryptoReport, NewCryptoReportView};
use crate::state::{ReportState, ReportStateView};
use crate::text::{
    cat, chars_of, has_sub, join_lines, lemma_pieces_nonempty, lower_of, lowercase, pieces,
    push_range, replace_spec, replace_str, same_text, split_chars, str_contains, string_of, trim,
    trim_spec,
};
use crate::settings::is_digit;
use crate::validate::{check_report_validation, verdict_spec};

verus! {

broadcast use vstd::string::group_string_axioms;

/// Outcome of one call to the generation service.
pub enum Reply {
    /// The generated text.
    Text(String),
    /// The call failed: the HTTP status if one came back, and the error text.
    Failed { status: Option<u16>, message: String },
}

pub enum ReplyView {
    Text(Seq<char>),
    Failed { status: Option<u16>, message: Seq<char> },
}

impl View for Reply {
    type V = ReplyView;

    open spec fn view(&self) -> ReplyView {
        match self {
            Reply::Text(t) => ReplyView::Text(t@),
            Reply::Failed { status, message } => ReplyView::Failed {
                status: *status,
                message: message@,
            },
        }
    }
}

/// The prompt templates, each one if it could be loaded.
pub struct PromptSet {
    pub combined_research_validation: Option<String>,
    pub data_validation: Option<String>,
    pub create_report: Option<String>,
    pub generate_report: Option<String>,
    pub translate_html: Option<String>,
    pub translate_js: Option<String>,
}

pub struct PromptSetView {
    pub combined_research_validation: Option<Seq<char>>,
    pub data_validation: Option<Seq<char>>,
    pub create_report: Option<Seq<char>>,
    pub generate_report: Option<Seq<char>>,
    pub translate_html: Option<Seq<char>>,
    pub translate_js: Option<Seq<char>>,
}

impl View for PromptSet {
    type V = PromptSetView;

    open spec fn view(&self) -> PromptSetView {
        PromptSetView {
            combined_research_validation: self.combined_research_validation.deep_view(),
            data_validation: self.data_validation.deep_view(),
            create_report: self.create_report.deep_view(),
            generate_report: self.generate_report.deep_view(),
            translate_html: self.translate_html.deep_view(),
            translate_js: self.translate_js.deep_view(),
        }
    }
}

/// A calendar date as the prompts quote it: two-digit day and month,
/// four-digit year.
pub struct DateStamp {
    pub day: String,
    pub month: String,
    pub year: String,
}

pub struct DateStampView {
    pub day: Seq<char>,
    pub month: Seq<char>,
    pub year: Seq<char>,
}

impl View for DateStamp {
    type V = DateStampView;

    open spec fn view(&self) -> DateStampView {
        DateStampView { day: self.day@, month: self.month@, year: self.year@ }
    }
}

/// Two ASCII digits.
pub open spec fn two_digits(t: Seq<char>) -> bool {
    t.len() == 2 && is_digit(t[0]) && is_digit(t[1])
}

/// Relies on chrono's `Utc::now` and its `%d`, `%m` and `%Y` formats: the
/// day, month and year of today in UTC. Day and month are zero-padded to two
/// digits, the year to at least four characters.
#[verifier::external_body]
fn utc_date_parts() -> (r: (String, String, String))
    ensures
        two_digits(r.0@),
        two_digits(r.1@),
        r.2@.len() >= 4,
{
    let now = chrono::Utc::now();
    (now.format("%d").to_string(), now.format("%m").to_string(), now.format("%Y").to_string())
}

impl DateStamp {
    /// Today's date in UTC.
    pub fn today() -> (r: DateStamp)
        ensures
            two_digits(r.day@),
            two_digits(r.month@),
            r.year@.len() >= 4,
    {
        let (day, month, year) = utc_date_parts();
        DateStamp { day, month, year }
    }
}

/// Value of the first field named `data` among a stream entry's fields.
pub open spec fn data_field_spec(fields: Seq<(Seq<char>, Seq<char>)>) -> Option<Seq<char>>
    decreases fields.len(),
{
    if fields.len() == 0 {
        None
    } else if fields[0].0 == "data"@ {
        Some(fields[0].1)
    } else {
        data_field_spec(fields.drop_first())
    }
}

/// Picks the real-time data out of a stream entry's fields.
pub fn data_field(fields: &Vec<(String, String)>) -> (r: Option<String>)
    ensures
        r.deep_view() == data_field_spec(fields.deep_view()),
{
    let ghost fs = fields.deep_view();
    let mut i: usize = 0;
    assert(fs.subrange(0, fs.len() as int) =~= fs);
    while i < fields.len()
        invariant
            i <= fields.len(),
            fs == fields.deep_view(),
            data_field_spec(fs) == data_field_spec(fs.subrange(i as int, fs.len() as int)),
        decreases fields.len() - i,
    {
        let ghost rest = fs.subrange(i as int, fs.len() as int);
        assert(rest.drop_first() =~= fs.subrange(i + 1, fs.len() as int));
        assert(rest[0] == (fields@[i as int].0@, fields@[i as int].1@));
        if same_text(fields[i].0.as_str(), "data") {
            return Some(fields[i].1.clone());
        }
        i = i + 1;
    }
    assert(fs.subrange(i as int, fs.len() as int) =~= Seq::<(Seq<char>, Seq<char>)>::empty());
    None
}

// ---------------------------------------------------------------------------
// Failures

/// Lower-case error text that reports a rate limit.
pub open spec fn rate_limit_text(lower: Seq<char>) -> bool {
    has_sub(lower, "429"@) || has_sub(lower, "rate limit"@) || has_sub(lower, "quota"@) || has_sub(
        lower,
        "resource exhausted"@,
    )
}

/// A failed call was refused for a rate limit: status 429, or error text
/// that says so in any case.
pub open spec fn rate_limited(status: Option<u16>, message: Seq<char>) -> bool {
    status == Some(429u16) || rate_limit_text(lower_of(message))
}

/// Whether the lower-case error text `lower` reports a rate limit.
pub fn rate_limit_marked(lower: &str) -> (r: bool)
    ensures
        r == rate_limit_text(lower@),
{
    str_contains(lower, "429") || str_contains(lower, "rate limit") || str_contains(lower, "quota")
        || str_contains(lower, "resource exhausted")
}

/// Whether the error text reports a rate limit, in any case.
pub fn is_rate_limit_error(error: &str) -> (r: bool)
    ensures
        r == rate_limit_text(lower_of(error@)),
{
    let lower = lowercase(error);
    rate_limit_marked(lower.as_str())
}

fn reply_rate_limited(status: Option<u16>, message: &str) -> (r: bool)
    ensures
        r == rate_limited(status, message@),
{
    let by_status = match status {
        Some(code) => code == 429,
        None => false,
    };
    by_status || is_rate_limit_error(message)
}

/// `s` with `m` appended to its errors.
pub open spec fn with_error(s: ReportStateView, m: Seq<char>) -> ReportStateView {
    ReportStateView { error_messages: s.error_messages.push(m), ..s }
}

/// `s` after a failed step that reports `m`.
pub open spec fn failed_step(s: ReportStateView, m: Seq<char>) -> ReportStateView {
    ReportStateView { success: false, ..with_error(s, m) }
}

/// `s` after a call refused for a rate limit, reported as `m`.
pub open spec fn rate_limit_stop(s: ReportStateView, m: Seq<char>) -> ReportStateView {
    ReportStateView { rate_limit_stop: true, success: false, ..with_error(s, m) }
}

pub(crate) fn fail_step(state: ReportState, m: &str) -> (r: ReportState)
    ensures
        r@ == failed_step(state@, m@),
{
    let mut s = state;
    s.add_error(m);
    s.success = false;
    s
}

fn stop_for_rate_limit(state: ReportState, m: &str) -> (r: ReportState)
    ensures
        r@ == rate_limit_stop(state@, m@),
{
    let mut s = state;
    s.rate_limit_stop = true;
    s.add_error(m);
    s.success = false;
    s
}

/// A failed call: the sticky flag for a rate limit, else the error text
/// after `prefix`.
pub open spec fn call_failed(
    s: ReportStateView,
    status: Option<u16>,
    message: Seq<char>,
    limit_note: Seq<char>,
    prefix: Seq<char>,
) -> ReportStateView {
    if rate_limited(status, message) {
        rate_limit_stop(s, limit_note)
    } else {
        failed_step(s, prefix + message)
    }
}

fn record_failure(
    state: ReportState,
    status: Option<u16>,
    message: &str,
    limit_note: &str,
    prefix: &str,
) -> (r: ReportState)
    ensures
        r@ == call_failed(state@, status, message@, limit_note@, prefix@),
{
    if reply_rate_limited(status, message) {
        stop_for_rate_limit(state, limit_note)
    } else {
        let m = cat(prefix, message);
        fail_step(state, m.as_str())
    }
}

// ---------------------------------------------------------------------------
// Preparation

/// `t` with the date placeholders filled in from `d`.
pub open spec fn date_filled(t: Seq<char>, d: DateStampView) -> Seq<char> {
    let t1 = replace_spec(t, "<<@day>>"@, d.day);
    let t2 = replace_spec(t1, "<<@month>>"@, d.month);
    let t3 = replace_spec(t2, "<<@year>>"@, d.year);
    let t4 = replace_spec(t3, "{{DATE}}"@, d.year + "-"@ + d.month + "-"@ + d.day);
    let t5 = replace_spec(t4, "{{YEAR}}"@, d.year);
    let t6 = replace_spec(t5, "{{MONTH}}"@, d.month);
    replace_spec(t6, "{{DAY}}"@, d.day)
}

/// Fills the date placeholders of `text` from `date`.
pub fn replace_date_placeholders(text: &str, date: &DateStamp) -> (r: String)
    ensures
        r@ == date_filled(text@, date@),
{
    proof {
        reveal_strlit("<<@day>>");
        reveal_strlit("<<@month>>");
        reveal_strlit("<<@year>>");
        reveal_strlit("{{DATE}}");
        reveal_strlit("{{YEAR}}");
        reveal_strlit("{{MONTH}}");
        reveal_strlit("{{DAY}}");
    }
    let full = cat(cat(cat(cat(date.year.as_str(), "-").as_str(), date.month.as_str()).as_str(), "-").as_str(), date.day.as_str());
    let t1 = replace_str(text, "<<@day>>", date.day.as_str());
    let t2 = replace_str(t1.as_str(), "<<@month>>", date.month.as_str());
    let t3 = replace_str(t2.as_str(), "<<@year>>", date.year.as_str());
    let t4 = replace_str(t3.as_str(), "{{DATE}}", full.as_str());
    let t5 = replace_str(t4.as_str(), "{{YEAR}}", date.year.as_str());
    let t6 = replace_str(t5.as_str(), "{{MONTH}}", date.month.as_str());
    replace_str(t6.as_str(), "{{DAY}}", date.day.as_str())
}

/// The state after preparation: the credential is checked, the prompts are
/// stored and the research prompt, which is required, gets today's date.
pub open spec fn prepared(s: ReportStateView, p: PromptSetView, d: DateStampView) -> ReportStateView {
    if s.api_key.len() == 0 {
        failed_step(s, "API key is invalid or empty"@)
    } else {
        let s2 = ReportStateView {
            research_analysis_prompt: p.combined_research_validation,
            data_validation_prompt: p.data_validation,
            create_report_prompt: p.create_report,
            generate_report_prompt: p.generate_report,
            translate_html_prompt: p.translate_html,
            translate_js_prompt: p.translate_js,
            ..s
        };
        match p.combined_research_validation {
            None => failed_step(s2, "Cannot read combined research validation prompt"@),
            Some(t) => ReportStateView { research_analysis_prompt: Some(date_filled(t, d)), ..s2 },
        }
    }
}

/// Checks the credential and stores the prompts. A missing credential or
/// research prompt fails the run.
pub fn prepare_data(state: ReportState, prompts: PromptSet, date: &DateStamp) -> (r: ReportState)
    ensures
        r@ == prepared(state@, prompts@, date@),
{
    if state.api_key.as_str().is_empty() {
        return fail_step(state, "API key is invalid or empty");
    }
    let mut s = state;
    s.research_analysis_prompt = prompts.combined_research_validation;
    s.data_validation_prompt = prompts.data_validation;
    s.create_report_prompt = prompts.create_report;
    s.generate_report_prompt = prompts.generate_report;
    s.translate_html_prompt = prompts.translate_html;
    s.translate_js_prompt = prompts.translate_js;
    let filled = match &s.research_analysis_prompt {
        None => None,
        Some(t) => Some(replace_date_placeholders(t.as_str(), date)),
    };
    match filled {
        None => fail_step(s, "Cannot read combined research validation prompt"),
        Some(t) => {
            s.research_analysis_prompt = Some(t);
            s
        },
    }
}

/// The state once preparation is over: the real-time data, if any came,
/// and the research loop's counter reset.
pub open spec fn with_realtime(s: ReportStateView, data: Option<Seq<char>>) -> ReportStateView {
    ReportStateView {
        realtime_data: if data is Some {
            data
        } else {
            s.realtime_data
        },
        current_attempt: 0,
        success: true,
        ..s
    }
}

/// Ends preparation with the optional real-time data; its absence is no
/// failure.
pub fn attach_realtime_data(state: ReportState, data: Option<String>) -> (r: ReportState)
    ensures
        r@ == with_realtime(state@, data.deep_view()),
{
    let mut s = state;
    if data.is_some() {
        s.realtime_data = data;
    }
    s.current_attempt = 0;
    s.success = true;
    s
}

// ---------------------------------------------------------------------------
// Research and validation

/// The prompt of the research call, or none where the step makes no call.
pub open spec fn research_prompt(s: ReportStateView) -> Option<Seq<char>> {
    if s.rate_limit_stop {
        None
    } else {
        match s.research_analysis_prompt {
            None => None,
            Some(p) => Some(
                replace_spec(
                    p,
                    "{{REAL_TIME_DATA}}"@,
                    match s.realtime_data {
                        Some(d) => d,
                        None => "{\"notice\": \"Real-time data không khả dụng, sử dụng Google Search để lấy dữ liệu mới nhất\"}"@,
                    },
                ),
            ),
        }
    }
}

/// The state when research makes no call.
pub open spec fn research_skipped(s: ReportStateView) -> ReportStateView {
    if s.rate_limit_stop {
        s
    } else {
        failed_step(s, "Research prompt is missing"@)
    }
}

/// Starts the research step: the prompt to send, or the settled state.
pub fn research_start(state: ReportState) -> (r: (ReportState, Option<String>))
    ensures
        r.1.deep_view() == research_prompt(state@),
        r.0@ == if r.1 is Some {
            state@
        } else {
            research_skipped(state@)
        },
{
    if state.rate_limit_stop {
        return (state, None);
    }
    let prompt = match &state.research_analysis_prompt {
        None => None,
        Some(p) => {
            proof {
                reveal_strlit("{{REAL_TIME_DATA}}");
            }
            let full = match &state.realtime_data {
                Some(d) => replace_str(p.as_str(), "{{REAL_TIME_DATA}}", d.as_str()),
                None => replace_str(
                    p.as_str(),
                    "{{REAL_TIME_DATA}}",
                    "{\"notice\": \"Real-time data không khả dụng, sử dụng Google Search để lấy dữ liệu mới nhất\"}",
                ),
            };
            Some(full)
        },
    };
    match prompt {
        None => (fail_step(state, "Research prompt is missing"), None),
        Some(p) => (state, Some(p)),
    }
}

/// The state after the research reply: the content and the verdict that its
/// own marker gives, or the failure.
pub open spec fn researched(s: ReportStateView, r: ReplyView) -> ReportStateView {
    match r {
        ReplyView::Text(t) => if has_sub(t, "KẾT QUẢ KIỂM TRA: PASS"@) || has_sub(
            t,
            "validation_result: PASS"@,
        ) {
            ReportStateView {
                research_content: Some(t),
                validation_result: Some("PASS"@),
                success: true,
                ..s
            }
        } else if has_sub(t, "KẾT QUẢ KIỂM TRA: FAIL"@) || has_sub(t, "validation_result: FAIL"@) {
            ReportStateView {
                research_content: Some(t),
                validation_result: Some("FAIL"@),
                success: false,
                ..s
            }
        } else {
            ReportStateView {
                research_content: Some(t),
                validation_result: Some("UNKNOWN"@),
                success: true,
                ..s
            }
        },
        ReplyView::Failed { status, message } => call_failed(
            s,
            status,
            message,
            "Rate limit encountered - stopping workflow"@,
            "Research API call failed: "@,
        ),
    }
}

/// Takes the reply to the research call.
pub fn research_deep(state: ReportState, reply: Reply) -> (r: ReportState)
    ensures
        r@ == researched(state@, reply@),
{
    match reply {
        Reply::Text(t) => {
            let mut s = state;
            let pass = str_contains(t.as_str(), "KẾT QUẢ KIỂM TRA: PASS") || str_contains(
                t.as_str(),
                "validation_result: PASS",
            );
            let fail = str_contains(t.as_str(), "KẾT QUẢ KIỂM TRA: FAIL") || str_contains(
                t.as_str(),
                "validation_result: FAIL",
            );
            s.research_content = Some(t);
            if pass {
                s.validation_result = Some("PASS".to_string());
                s.success = true;
            } else if fail {
                s.validation_result = Some("FAIL".to_string());
                s.success = false;
            } else {
                s.validation_result = Some("UNKNOWN".to_string());
                s.success = true;
            }
            s
        },
        Reply::Failed { status, message } => record_failure(
            state,
            status,
            message.as_str(),
            "Rate limit encountered - stopping workflow",
            "Research API call failed: ",
        ),
    }
}

/// The state after validation: `SKIP` under a rate limit, `FAIL` without
/// research content, else the verdict on the content.
pub open spec fn validated(s: ReportStateView) -> ReportStateView {
    if s.rate_limit_stop {
        ReportStateView { validation_result: Some("SKIP"@), ..s }
    } else if s.research_content is Some && s.research_content->0.len() > 0 {
        let c = s.research_content->0;
        let v = verdict_spec(c, lower_of(c));
        if v == "FAIL"@ {
            ReportStateView { validation_result: Some(v), success: false, ..s }
        } else {
            ReportStateView { validation_result: Some(v), ..s }
        }
    } else {
        ReportStateView {
            validation_result: Some("FAIL"@),
            ..with_error(s, "No research content available for validation"@)
        }
    }
}

/// Judges the research content.
pub fn validate_report(state: ReportState) -> (r: ReportState)
    ensures
        r@ == validated(state@),
{
    let mut s = state;
    if s.rate_limit_stop {
        s.validation_result = Some("SKIP".to_string());
        return s;
    }
    let verdict = match &s.research_content {
        Some(c) => if c.as_str().is_empty() {
            None
        } else {
            Some(check_report_validation(c.as_str()))
        },
        None => None,
    };
    match verdict {
        None => {
            s.validation_result = Some("FAIL".to_string());
            s.add_error("No research content available for validation");
            s
        },
        Some(v) => {
            let failed = same_text(v.as_str(), "FAIL");
            s.validation_result = Some(v);
            if failed {
                s.success = false;
            }
            s
        },
    }
}

// ---------------------------------------------------------------------------
// Report content and interface

/// The prompt of the content call: the report template, or a built-in one,
/// followed by the research content.
pub open spec fn content_prompt(s: ReportStateView) -> Option<Seq<char>> {
    if s.rate_limit_stop {
        None
    } else {
        match s.research_content {
            None => None,
            Some(rc) => Some(
                match s.create_report_prompt {
                    Some(p) => p,
                    None => "Generate a professional crypto market report based on the following research:"@,
                } + "\n\n## Research Content:\n"@ + rc,
            ),
        }
    }
}

/// The state when content generation makes no call.
pub open spec fn content_skipped(s: ReportStateView) -> ReportStateView {
    if s.rate_limit_stop {
        s
    } else {
        failed_step(s, "Research content is missing"@)
    }
}

/// Starts the content step: the prompt to send, or the settled state.
pub fn content_start(state: ReportState) -> (r: (ReportState, Option<String>))
    ensures
        r.1.deep_view() == content_prompt(state@),
        r.0@ == if r.1 is Some {
            state@
        } else {
            content_skipped(state@)
        },
{
    if state.rate_limit_stop {
        return (state, None);
    }
    let prompt = match &state.research_content {
        None => None,
        Some(rc) => {
            let head = match &state.create_report_prompt {
                Some(p) => cat(p.as_str(), "\n\n## Research Content:\n"),
                None => cat(
                    "Generate a professional crypto market report based on the following research:",
                    "\n\n## Research Content:\n",
                ),
            };
            Some(cat(head.as_str(), rc.as_str()))
        },
    };
    match prompt {
        None => (fail_step(state, "Research content is missing"), None),
        Some(p) => (state, Some(p)),
    }
}

/// The state after the content reply.
pub open spec fn content_generated(s: ReportStateView, r: ReplyView) -> ReportStateView {
    match r {
        ReplyView::Text(t) => ReportStateView { report_content: Some(t), success: true, ..s },
        ReplyView::Failed { status, message } => call_failed(
            s,
            status,
            message,
            "Rate limit encountered"@,
            "Content generation failed: "@,
        ),
    }
}

/// Takes the reply to the content call.
pub fn generate_content(state: ReportState, reply: Reply) -> (r: ReportState)
    ensures
        r@ == content_generated(state@, reply@),
{
    match reply {
        Reply::Text(t) => {
            let mut s = state;
            s.report_content = Some(t);
            s.success = true;
            s
        },
        Reply::Failed { status, message } => record_failure(
            state,
            status,
            message.as_str(),
            "Rate limit encountered",
            "Content generation failed: ",
        ),
    }
}

/// The content the interface presents: the report content, or the research
/// content where there is no report.
pub open spec fn interface_source(s: ReportStateView) -> Option<Seq<char>> {
    match s.report_content {
        Some(rc) => Some(rc),
        None => s.research_content,
    }
}

/// The prompt of the interface call, built around the report content, or
/// the research content where there is no report.
pub open spec fn interface_prompt(s: ReportStateView) -> Option<Seq<char>> {
    if s.rate_limit_stop {
        None
    } else {
        match interface_source(s) {
            None => None,
            Some(rc) => Some(
                "Create a complete, responsive HTML page for a crypto market report.\n\n## Requirements:\n1. Use modern CSS with dark theme\n2. Include interactive elements with JavaScript\n3. Make it mobile-responsive\n4. Use professional design with gradients and animations\n\n## Report Content:\n"@
                    + rc
                    + "\n\n## Output Format:\nReturn the complete code in three separate code blocks:\n```html\n<!-- HTML code here -->\n```\n\n```css\n/* CSS code here */\n```\n\n```javascript\n// JavaScript code here\n```"@,
            ),
        }
    }
}

/// The state when interface creation makes no call.
pub open spec fn interface_skipped(s: ReportStateView) -> ReportStateView {
    if s.rate_limit_stop {
        s
    } else {
        failed_step(s, "Report content is missing"@)
    }
}

/// Starts the interface step: the prompt to send, or the settled state.
pub fn interface_start(state: ReportState) -> (r: (ReportState, Option<String>))
    ensures
        r.1.deep_view() == interface_prompt(state@),
        r.0@ == if r.1 is Some {
            state@
        } else {
            interface_skipped(state@)
        },
{
    if state.rate_limit_stop {
        return (state, None);
    }
    let source = match &state.report_content {
        Some(rc) => Some(rc),
        None => match &state.research_content {
            Some(rc) => Some(rc),
            None => None,
        },
    };
    let prompt = match source {
        None => None,
        Some(rc) => {
            let head = cat(
                "Create a complete, responsive HTML page for a crypto market report.\n\n## Requirements:\n1. Use modern CSS with dark theme\n2. Include interactive elements with JavaScript\n3. Make it mobile-responsive\n4. Use professional design with gradients and animations\n\n## Report Content:\n",
                rc.as_str(),
            );
            Some(
                cat(
                    head.as_str(),
                    "\n\n## Output Format:\nReturn the complete code in three separate code blocks:\n```html\n<!-- HTML code here -->\n```\n\n```css\n/* CSS code here */\n```\n\n```javascript\n// JavaScript code here\n```",
                ),
            )
        },
    };
    match prompt {
        None => (fail_step(state, "Report content is missing"), None),
        Some(p) => (state, Some(p)),
    }
}

/// The state after the interface reply: the reply replaces the report
/// content, from which the code is then extracted.
pub open spec fn interface_created(s: ReportStateView, r: ReplyView) -> ReportStateView {
    match r {
        ReplyView::Text(t) => ReportStateView { report_content: Some(t), success: true, ..s },
        ReplyView::Failed { status, message } => call_failed(
            s,
            status,
            message,
            "Rate limit encountered"@,
            "Interface creation failed: "@,
        ),
    }
}

/// Takes the reply to the interface call.
pub fn create_interface(state: ReportState, reply: Reply) -> (r: ReportState)
    ensures
        r@ == interface_created(state@, reply@),
{
    match reply {
        Reply::Text(t) => {
            let mut s = state;
            s.report_content = Some(t);
            s.success = true;
            s
        },
        Reply::Failed { status, message } => record_failure(
            state,
            status,
            message.as_str(),
            "Rate limit encountered",
            "Interface creation failed: ",
        ),
    }
}

/// The script block: the `javascript` one, else the `js` one.
pub open spec fn script_block(c: Seq<char>) -> Option<Seq<char>> {
    match extracted(c, "javascript"@) {
        Some(b) => Some(b),
        None => extracted(c, "js"@),
    }
}

/// The state after extraction: the HTML block is required, style and script
/// are taken where present.
pub open spec fn code_extracted(s: ReportStateView) -> ReportStateView {
    match s.report_content {
        None => failed_step(s, "No content to extract code from"@),
        Some(c) => match extracted(c, "html"@) {
            None => failed_step(s, "Failed to extract HTML content"@),
            Some(h) => ReportStateView {
                html_content: Some(h),
                css_content: extracted(c, "css"@),
                js_content: script_block(c),
                success: true,
                ..s
            },
        },
    }
}

/// Extracts the HTML, CSS and script blocks from the interface reply.
pub fn extract_code(state: ReportState) -> (r: ReportState)
    ensures
        r@ == code_extracted(state@),
{
    let blocks = match &state.report_content {
        None => None,
        Some(c) => Some(extract_code_blocks(c.as_str())),
    };
    match blocks {
        None => fail_step(state, "No content to extract code from"),
        Some((html, css, js)) => {
            if html.is_none() {
                return fail_step(state, "Failed to extract HTML content");
            }
            let mut s = state;
            s.html_content = html;
            s.css_content = css;
            s.js_content = js;
            s.success = true;
            s
        },
    }
}

// ---------------------------------------------------------------------------
// Translation

pub open spec fn strip_cr(l: Seq<char>) -> Seq<char> {
    if l.len() > 0 && l.last() == '\r' {
        l.drop_last()
    } else {
        l
    }
}

/// The lines of `s` as `str::lines` yields them: split at newlines, a
/// carriage return before a newline dropped, no empty line after a final
/// newline.
pub open spec fn lines_spec(s: Seq<char>) -> Seq<Seq<char>> {
    let ps = pieces(s, '\n');
    let body = ps.drop_last().map_values(|l: Seq<char>| strip_cr(l));
    if ps.last().len() == 0 {
        body
    } else {
        body.push(ps.last())
    }
}

pub open spec fn starts_with_fence(t: Seq<char>) -> bool {
    t.len() >= 3 && t[0] == '`' && t[1] == '`' && t[2] == '`'
}

/// A translation reply made usable: trimmed, and where it is wrapped in a
/// code fence, the lines between the first and the last; none where nothing
/// is left.
pub open spec fn cleaned(text: Seq<char>) -> Option<Seq<char>> {
    let t = trim_spec(text);
    let ls = lines_spec(t);
    let c = if starts_with_fence(t) && ls.len() > 2 {
        join_lines(ls.subrange(1, ls.len() - 1))
    } else {
        t
    };
    if c.len() > 0 {
        Some(c)
    } else {
        None
    }
}

fn strip_cr_chars(l: &Vec<char>) -> (r: Vec<char>)
    ensures
        r@ == strip_cr(l@),
{
    let mut out: Vec<char> = Vec::new();
    if l.len() > 0 && l[l.len() - 1] == '\r' {
        push_range(&mut out, l, 0, l.len() - 1);
        assert(out@ =~= l@.drop_last());
    } else {
        push_range(&mut out, l, 0, l.len());
        assert(out@ =~= l@);
    }
    out
}

/// Cleans the text of a translation reply.
pub fn clean_translation(text: &str) -> (r: Option<String>)
    ensures
        r.deep_view() == cleaned(text@),
{
    let raw = chars_of(text);
    let t = trim(&raw);
    let ghost ls = lines_spec(t@);
    let mut c: Vec<char> = Vec::new();
    push_range(&mut c, &t, 0, t.len());
    assert(c@ =~= t@);
    if t.len() >= 3 && t[0] == '`' && t[1] == '`' && t[2] == '`' {
        let ps = split_chars(&t, '\n');
        proof {
            lemma_pieces_nonempty(t@, '\n');
        }
        let ghost pv = pieces(t@, '\n');
        let mut lines: Vec<Vec<char>> = Vec::new();
        let mut i: usize = 0;
        while i + 1 < ps.len()
            invariant
                ps@.len() == pv.len(),
                pv.len() >= 1,
                forall|j: int| 0 <= j < ps@.len() ==> #[trigger] ps@[j]@ == pv[j],
                i + 1 <= ps.len(),
                lines@.len() == i,
                forall|j: int| 0 <= j < i ==> #[trigger] lines@[j]@ == strip_cr(pv[j]),
            decreases ps.len() - i,
        {
            lines.push(strip_cr_chars(&ps[i]));
            i = i + 1;
        }
        let last = ps.len() - 1;
        if ps[last].len() > 0 {
            let mut l: Vec<char> = Vec::new();
            push_range(&mut l, &ps[last], 0, ps[last].len());
            assert(l@ =~= ps@[last as int]@);
            lines.push(l);
        }
        assert(lines@.len() == ls.len());
        assert forall|j: int| 0 <= j < lines@.len() implies #[trigger] lines@[j]@ == ls[j] by {}
        if lines.len() > 2 {
            let end = lines.len() - 1;
            let mut out: Vec<char> = Vec::new();
            push_range(&mut out, &lines[1], 0, lines[1].len());
            assert(ls.subrange(1, 2) =~= seq![ls[1]]);
            assert(out@ =~= join_lines(ls.subrange(1, 2)));
            let mut k: usize = 2;
            while k < end
                invariant
                    2 <= k <= end,
                    end == lines@.len() - 1,
                    lines@.len() == ls.len(),
                    forall|j: int| 0 <= j < lines@.len() ==> #[trigger] lines@[j]@ == ls[j],
                    out@ == join_lines(ls.subrange(1, k as int)),
                decreases end - k,
            {
                let ghost before = out@;
                out.push('\n');
                push_range(&mut out, &lines[k], 0, lines[k].len());
                assert(ls.subrange(1, k + 1).drop_last() =~= ls.subrange(1, k as int));
                assert(lines@[k as int]@.subrange(0, lines@[k as int]@.len() as int) =~= ls[k as int]);
                assert(out@ =~= before + seq!['\n'] + ls[k as int]);
                k = k + 1;
            }
            c = out;
        }
    }
    if c.len() > 0 {
        Some(string_of(&c))
    } else {
        None
    }
}

/// The prompt that translates the HTML, if there is HTML to translate.
pub open spec fn html_translation_prompt(s: ReportStateView) -> Option<Seq<char>> {
    match s.html_content {
        Some(h) => if trim_spec(h).len() > 0 {
            Some(
                match s.translate_html_prompt {
                    Some(p) => replace_spec(p, "{content}"@, h),
                    None => "Translate the following HTML content from Vietnamese to English.\nKeep all HTML tags intact. Only translate the text content.\n\n"@
                        + h + "\n\nReturn ONLY the translated HTML without explanation."@,
                },
            )
        } else {
            None
        },
        None => None,
    }
}

/// The prompt that translates the script, if there is a script to translate.
pub open spec fn js_translation_prompt(s: ReportStateView) -> Option<Seq<char>> {
    match s.js_content {
        Some(j) => if trim_spec(j).len() > 0 {
            Some(
                match s.translate_js_prompt {
                    Some(p) => replace_spec(p, "{js_content}"@, j),
                    None => "Translate the following JavaScript content from Vietnamese to English.\nKeep all JavaScript code intact. Only translate string literals and comments.\n\n"@
                        + j + "\n\nReturn ONLY the translated JavaScript without explanation."@,
                },
            )
        } else {
            None
        },
        None => None,
    }
}

fn is_blank(t: &String) -> (r: bool)
    ensures
        r == (trim_spec(t@).len() == 0),
{
    let v = chars_of(t.as_str());
    trim(&v).len() == 0
}

/// Builds the HTML translation prompt.
pub fn html_translation_request(state: &ReportState) -> (r: Option<String>)
    ensures
        r.deep_view() == html_translation_prompt(state@),
{
    match &state.html_content {
        Some(h) => {
            if is_blank(h) {
                return None;
            }
            proof {
                reveal_strlit("{content}");
            }
            Some(
                match &state.translate_html_prompt {
                    Some(p) => replace_str(p.as_str(), "{content}", h.as_str()),
                    None => cat(
                        cat(
                            "Translate the following HTML content from Vietnamese to English.\nKeep all HTML tags intact. Only translate the text content.\n\n",
                            h.as_str(),
                        ).as_str(),
                        "\n\nReturn ONLY the translated HTML without explanation.",
                    ),
                },
            )
        },
        None => None,
    }
}

/// Builds the script translation prompt.
pub fn js_translation_request(state: &ReportState) -> (r: Option<String>)
    ensures
        r.deep_view() == js_translation_prompt(state@),
{
    match &state.js_content {
        Some(j) => {
            if is_blank(j) {
                return None;
            }
            proof {
                reveal_strlit("{js_content}");
            }
            Some(
                match &state.translate_js_prompt {
                    Some(p) => replace_str(p.as_str(), "{js_content}", j.as_str()),
                    None => cat(
                        cat(
                            "Translate the following JavaScript content from Vietnamese to English.\nKeep all JavaScript code intact. Only translate string literals and comments.\n\n",
                            j.as_str(),
                        ).as_str(),
                        "\n\nReturn ONLY the translated JavaScript without explanation.",
                    ),
                },
            )
        },
        None => None,
    }
}

/// The state after a translation reply, and whether translation stops: a
/// usable reply fills the English field, a rate limit sets the sticky flag
/// and stops, any other failure leaves the field unset.
pub open spec fn translated(s: ReportStateView, r: ReplyView, html: bool) -> (ReportStateView, bool) {
    match r {
        ReplyView::Text(t) => match cleaned(t) {
            Some(c) => if html {
                (ReportStateView { html_content_en: Some(c), ..s }, false)
            } else {
                (ReportStateView { js_content_en: Some(c), ..s }, false)
            },
            None => (s, false),
        },
        ReplyView::Failed { status, message } => if rate_limited(status, message) {
            (
                ReportStateView {
                    rate_limit_stop: true,
                    ..with_error(
                        s,
                        if html {
                            "Rate limit error when translating HTML"@
                        } else {
                            "Rate limit error when translating JS"@
                        },
                    )
                },
                true,
            )
        } else {
            (s, false)
        },
    }
}

fn take_translation(state: ReportState, reply: Reply, html: bool) -> (r: (ReportState, bool))
    ensures
        (r.0@, r.1) == translated(state@, reply@, html),
{
    let mut s = state;
    match reply {
        Reply::Text(t) => {
            match clean_translation(t.as_str()) {
                Some(c) => {
                    if html {
                        s.html_content_en = Some(c);
                    } else {
                        s.js_content_en = Some(c);
                    }
                },
                None => {},
            }
            (s, false)
        },
        Reply::Failed { status, message } => {
            if reply_rate_limited(status, message.as_str()) {
                s.rate_limit_stop = true;
                if html {
                    s.add_error("Rate limit error when translating HTML");
                } else {
                    s.add_error("Rate limit error when translating JS");
                }
                (s, true)
            } else {
                (s, false)
            }
        },
    }
}

/// Takes the reply to the HTML translation call.
pub fn translate_html(state: ReportState, reply: Reply) -> (r: (ReportState, bool))
    ensures
        (r.0@, r.1) == translated(state@, reply@, true),
{
    take_translation(state, reply, true)
}

/// Takes the reply to the script translation call.
pub fn translate_js(state: ReportState, reply: Reply) -> (r: (ReportState, bool))
    ensures
        (r.0@, r.1) == translated(state@, reply@, false),
{
    take_translation(state, reply, false)
}

// ---------------------------------------------------------------------------
// Saving

/// The record to store, where saving may go ahead: no rate limit met and
/// HTML that is not blank.
pub open spec fn save_request(s: ReportStateView) -> Option<NewCryptoReportView> {
    if s.rate_limit_stop {
        None
    } else {
        match s.html_content {
            Some(h) => if trim_spec(h).len() > 0 {
                Some(
                    NewCryptoReportView {
                        html_content: h,
                        css_content: s.css_content,
                        js_content: s.js_content,
                        html_content_en: s.html_content_en,
                        js_content_en: s.js_content_en,
                    },
                )
            } else {
                None
            },
            None => None,
        }
    }
}

/// The state when saving does not go ahead.
pub open spec fn save_skipped(s: ReportStateView) -> ReportStateView {
    if s.rate_limit_stop {
        failed_step(s, "Skipped save due to rate limit"@)
    } else {
        failed_step(s, "HTML content is missing or empty"@)
    }
}

fn copy_text(o: &Option<String>) -> (r: Option<String>)
    ensures
        r.deep_view() == o.deep_view(),
{
    match o {
        Some(t) => Some(t.clone()),
        None => None,
    }
}

/// Starts the save step: the record to store, or the settled state.
pub fn save_start(state: ReportState) -> (r: (ReportState, Option<NewCryptoReport>))
    ensures
        match r.1 {
            Some(n) => save_request(state@) == Some(n@) && r.0@ == state@,
            None => save_request(state@) is None && r.0@ == save_skipped(state@),
        },
{
    if state.rate_limit_stop {
        return (fail_step(state, "Skipped save due to rate limit"), None);
    }
    let html = match &state.html_content {
        Some(h) => if is_blank(h) {
            None
        } else {
            Some(h.clone())
        },
        None => None,
    };
    match html {
        None => (fail_step(state, "HTML content is missing or empty"), None),
        Some(h) => {
            let report = NewCryptoReport {
                html_content: h,
                css_content: copy_text(&state.css_content),
                js_content: copy_text(&state.js_content),
                html_content_en: copy_text(&state.html_content_en),
                js_content_en: copy_text(&state.js_content_en),
            };
            (state, Some(report))
        },
    }
}

/// Under a rate limit the save step stores nothing: it asks for no insert,
/// fails the run, appends the reason to the errors and leaves every other
/// field, the report identifier among them, as it was.
pub proof fn lemma_rate_limited_save_skipped(s: ReportStateView)
    requires
        s.rate_limit_stop,
    ensures
        save_request(s) is None,
        save_skipped(s) == (ReportStateView {
            success: false,
            error_messages: s.error_messages.push("Skipped save due to rate limit"@),
            ..s
        }),
        save_skipped(s).report_id == s.report_id,
{
}

/// The state after storage answered: the identifier and success, or the
/// failure.
pub open spec fn saved(s: ReportStateView, res: Result<i32, Seq<char>>) -> ReportStateView {
    match res {
        Ok(id) => ReportStateView { report_id: Some(id), success: true, ..s },
        Err(e) => failed_step(s, "Database save error: "@ + e),
    }
}

/// Takes storage's answer to the save.
pub fn save_to_database(state: ReportState, result: Result<i32, String>) -> (r: ReportState)
    ensures
        r@ == saved(
            state@,
            match result {
                Ok(id) => Ok(id),
                Err(e) => Err(e@),
            },
        ),
{
    match result {
        Ok(id) => {
            let mut s = state;
            s.report_id = Some(id);
            s.success = true;
            s
        },
        Err(e) => {
            let m = cat("Database save error: ", e.as_str());
            fail_step(state, m.as_str())
        },
    }
}

} // verus!
