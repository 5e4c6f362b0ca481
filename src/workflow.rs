//! The workflow engine: the pipeline as a state machine.
//!
//! The engine never does outside work itself. Each transition takes the
//! outcome of the work it last asked for and returns the next piece of work:
//! load the prompts, fetch the real-time data, call the generation service,
//! store the report, or finish. Between those it runs the pure steps, the
//! routing decisions and the two bounded retry loops.

use vstd::prelude::*;
use crate::models::{NewCryptoReport, NewCryptoReportView};
use crate::routing::{
    interface_route, research_route, should_retry_interface_or_continue,
    should_retry_or_continue, RoutingDecision,
};
use crate::state::{fresh_state, ReportState, ReportStateView};
use crate::steps::{
    attach_realtime_data, code_extracted, content_generated, content_prompt, content_skipped,
    content_start, create_interface, extract_code, generate_content, html_translation_prompt,
    html_translation_request, interface_created, interface_prompt, interface_skipped,
    interface_start, js_translation_prompt, js_translation_request, prepare_data, prepared,
    research_deep, research_prompt, research_skipped, research_start, researched, save_request,
    save_skipped, save_start, save_to_database, saved, translate_html, translate_js, translated,
    failed_step, fail_step,
    validate_report, validated, with_realtime, DateStamp, DateStampView, PromptSet, PromptSetView,
    Reply, ReplyView,
};

verus! {

/// Where a run stands: the work it waits for, or its end.
#[derive(Debug, Clone, Copy, PartialEq, Eq, Structural)]
pub enum Stage {
    /// Waits for the prompt templates.
    Prepare,
    /// Waits for the optional real-time data.
    FetchData,
    /// Waits for the research reply.
    Research,
    /// Waits for the report content reply.
    GenerateContent,
    /// Waits for the interface reply.
    CreateInterface,
    /// Waits for the HTML translation reply.
    TranslateHtml,
    /// Waits for the script translation reply.
    TranslateJs,
    /// Waits for storage.
    Save,
    /// The run is over.
    Finished,
}

/// Which generation call is asked for; each has its own parameters.
#[derive(Debug, Clone, Copy, PartialEq, Eq, Structural)]
pub enum CallKind {
    Research,
    Content,
    Interface,
    Translation,
}

/// Work that the engine asks its caller to do.
pub enum Action {
    /// Load the prompt templates; answer with `Event::Prompts`.
    LoadPrompts,
    /// Fetch the optional real-time data; answer with `Event::RealtimeData`.
    FetchRealtimeData,
    /// Call the generation service; answer with `Event::Generated`.
    Generate { kind: CallKind, prompt: String },
    /// Store the report; answer with `Event::Saved`.
    Save(NewCryptoReport),
    /// Nothing more: the run is over.
    Finish,
}

pub enum ActionView {
    LoadPrompts,
    FetchRealtimeData,
    Generate { kind: CallKind, prompt: Seq<char> },
    Save(NewCryptoReportView),
    Finish,
}

impl View for Action {
    type V = ActionView;

    open spec fn view(&self) -> ActionView {
        match self {
            Action::LoadPrompts => ActionView::LoadPrompts,
            Action::FetchRealtimeData => ActionView::FetchRealtimeData,
            Action::Generate { kind, prompt } => ActionView::Generate {
                kind: *kind,
                prompt: prompt@,
            },
            Action::Save(n) => ActionView::Save(n@),
            Action::Finish => ActionView::Finish,
        }
    }
}

/// Outcome of the work last asked for.
pub enum Event {
    Prompts(PromptSet, DateStamp),
    RealtimeData(Option<String>),
    Generated(Reply),
    /// The identifier that storage gave, or its error text.
    Saved(Result<i32, String>),
}

pub enum EventView {
    Prompts(PromptSetView, DateStampView),
    RealtimeData(Option<Seq<char>>),
    Generated(ReplyView),
    Saved(Result<i32, Seq<char>>),
}

impl View for Event {
    type V = EventView;

    open spec fn view(&self) -> EventView {
        match self {
            Event::Prompts(p, d) => EventView::Prompts(p@, d@),
            Event::RealtimeData(d) => EventView::RealtimeData(d.deep_view()),
            Event::Generated(r) => EventView::Generated(r@),
            Event::Saved(res) => EventView::Saved(
                match res {
                    Ok(id) => Ok(*id),
                    Err(e) => Err(e@),
                },
            ),
        }
    }
}

/// A run in progress.
pub struct Workflow {
    pub state: ReportState,
    pub stage: Stage,
}

/// Where a transition leads: the stage, the state, and the work asked for.
pub type Outcome = (Stage, ReportStateView, ActionView);

/// The event is the answer to the work that `stage` waits for.
pub open spec fn answers(stage: Stage, e: EventView) -> bool {
    match e {
        EventView::Prompts(_, _) => stage == Stage::Prepare,
        EventView::RealtimeData(_) => stage == Stage::FetchData,
        EventView::Generated(_) => stage == Stage::Research || stage == Stage::GenerateContent
            || stage == Stage::CreateInterface || stage == Stage::TranslateHtml || stage
            == Stage::TranslateJs,
        EventView::Saved(_) => stage == Stage::Save,
    }
}

pub open spec fn finished(s: ReportStateView) -> Outcome {
    (Stage::Finished, s, ActionView::Finish)
}

/// The run ends because the research loop spent its attempts.
pub open spec fn research_exhausted(s: ReportStateView) -> Outcome {
    finished(failed_step(s, "Maximum research attempts reached"@))
}

/// The run ends because the interface loop spent its attempts.
pub open spec fn interface_exhausted(s: ReportStateView) -> Outcome {
    finished(failed_step(s, "Maximum interface attempts reached"@))
}

pub open spec fn bumped(x: u32) -> u32 {
    if x < u32::MAX {
        (x + 1) as u32
    } else {
        x
    }
}

/// Saving, where it may go ahead; else the run ends with the reason.
pub open spec fn enter_save(s: ReportStateView) -> Outcome {
    match save_request(s) {
        Some(n) => (Stage::Save, s, ActionView::Save(n)),
        None => finished(save_skipped(s)),
    }
}

/// Script translation, where there is a script; else translation is done.
pub open spec fn enter_translate_js(s: ReportStateView) -> Outcome {
    match js_translation_prompt(s) {
        Some(p) => (Stage::TranslateJs, s, ActionView::Generate { kind: CallKind::Translation, prompt: p }),
        None => enter_save(ReportStateView { success: true, ..s }),
    }
}

/// Translation: skipped under a rate limit, else HTML first, then script.
pub open spec fn enter_translate(s: ReportStateView) -> Outcome {
    if s.rate_limit_stop {
        enter_save(s)
    } else {
        match html_translation_prompt(s) {
            Some(p) => (
                Stage::TranslateHtml,
                s,
                ActionView::Generate { kind: CallKind::Translation, prompt: p },
            ),
            None => enter_translate_js(s),
        }
    }
}

/// One attempt of the interface loop: the counter counts the attempt, and an
/// attempt that makes no call is extracted and routed at once.
pub open spec fn enter_interface(s: ReportStateView) -> Outcome
    decreases 3 - s.interface_attempt,
{
    let s1 = ReportStateView { interface_attempt: bumped(s.interface_attempt), ..s };
    if s.rate_limit_stop {
        enter_save(s)
    } else {
        match interface_prompt(s1) {
            Some(p) => (
                Stage::CreateInterface,
                s1,
                ActionView::Generate { kind: CallKind::Interface, prompt: p },
            ),
            None => {
                let s2 = code_extracted(interface_skipped(s1));
                match interface_route(s2) {
                    RoutingDecision::Continue => enter_translate(s2),
                    RoutingDecision::RetryInterface => if s.interface_attempt < 3 {
                        enter_interface(s2)
                    } else {
                        interface_exhausted(s2)
                    },
                    _ => interface_exhausted(s2),
                }
            },
        }
    }
}

/// Routing after code extraction.
pub open spec fn after_extract(s: ReportStateView) -> Outcome {
    match interface_route(s) {
        RoutingDecision::Continue => enter_translate(s),
        RoutingDecision::RetryInterface => enter_interface(s),
        _ => interface_exhausted(s),
    }
}

/// Report content generation, or straight to the interface loop.
pub open spec fn enter_content(s: ReportStateView) -> Outcome {
    if s.rate_limit_stop {
        enter_save(s)
    } else {
        match content_prompt(s) {
            Some(p) => (Stage::GenerateContent, s, ActionView::Generate { kind: CallKind::Content, prompt: p }),
            None => enter_interface(content_skipped(s)),
        }
    }
}

/// One attempt of the research loop: the counter counts the attempt, and an
/// attempt that makes no call is validated and routed at once.
pub open spec fn enter_research(s: ReportStateView) -> Outcome
    decreases s.max_attempts - s.current_attempt,
{
    let s1 = ReportStateView { current_attempt: bumped(s.current_attempt), ..s };
    if s.rate_limit_stop {
        enter_save(s)
    } else {
        match research_prompt(s1) {
            Some(p) => (Stage::Research, s1, ActionView::Generate { kind: CallKind::Research, prompt: p }),
            None => {
                let s2 = validated(research_skipped(s1));
                match research_route(s2) {
                    RoutingDecision::Continue => enter_content(s2),
                    RoutingDecision::Retry => if s.current_attempt < s.max_attempts {
                        enter_research(s2)
                    } else {
                        research_exhausted(s2)
                    },
                    _ => research_exhausted(s2),
                }
            },
        }
    }
}

/// Validation and routing after a research reply.
pub open spec fn after_research(s: ReportStateView) -> Outcome {
    let s2 = validated(s);
    match research_route(s2) {
        RoutingDecision::Continue => enter_content(s2),
        RoutingDecision::Retry => enter_research(s2),
        _ => research_exhausted(s2),
    }
}

/// Preparation fails on a missing credential or research prompt.
pub open spec fn preparation_fails(s: ReportStateView, p: PromptSetView) -> bool {
    s.api_key.len() == 0 || p.combined_research_validation is None
}

/// The transition of a run at `stage` with state `s` on event `e`.
pub open spec fn advance_spec(stage: Stage, s: ReportStateView, e: EventView) -> Outcome {
    match e {
        EventView::Prompts(p, d) => if preparation_fails(s, p) {
            finished(prepared(s, p, d))
        } else {
            (Stage::FetchData, prepared(s, p, d), ActionView::FetchRealtimeData)
        },
        EventView::RealtimeData(d) => enter_research(with_realtime(s, d)),
        EventView::Generated(r) => if stage == Stage::Research {
            let s1 = researched(s, r);
            if s1.rate_limit_stop {
                enter_save(s1)
            } else {
                after_research(s1)
            }
        } else if stage == Stage::GenerateContent {
            enter_interface(content_generated(s, r))
        } else if stage == Stage::CreateInterface {
            let s1 = interface_created(s, r);
            if s1.rate_limit_stop {
                enter_save(s1)
            } else {
                after_extract(code_extracted(s1))
            }
        } else if stage == Stage::TranslateHtml {
            let (s2, stop) = translated(s, r, true);
            if stop {
                enter_save(s2)
            } else {
                enter_translate_js(s2)
            }
        } else {
            let (s2, stop) = translated(s, r, false);
            if stop {
                enter_save(s2)
            } else {
                enter_save(ReportStateView { success: true, ..s2 })
            }
        },
        EventView::Saved(res) => finished(saved(s, res)),
    }
}

/// A generation call refused for a rate limit, at any step, sets the sticky
/// flag and ends the run at the save step, which records that it was skipped:
/// the run fails and no report is stored.
pub proof fn lemma_rate_limit_skips_save(stage: Stage, s: ReportStateView, message: Seq<char>)
    requires
        answers(stage, EventView::Generated(ReplyView::Failed { status: Some(429u16), message })),
    ensures
        ({
            let (st, t, a) = advance_spec(
                stage,
                s,
                EventView::Generated(ReplyView::Failed { status: Some(429u16), message }),
            );
            &&& st == Stage::Finished
            &&& a == ActionView::Finish
            &&& t.rate_limit_stop
            &&& !t.success
            &&& t.error_messages.len() > 0
            &&& t.error_messages.last() == "Skipped save due to rate limit"@
            &&& t.report_id == s.report_id
        }),
{
}

/// A research reply whose verdict does not pass, once the attempts are
/// spent, ends the run failed, with errors recorded and no report stored.
pub proof fn lemma_exhausted_research_ends(s: ReportStateView, r: ReplyView)
    requires
        s.current_attempt >= s.max_attempts,
        !researched(s, r).rate_limit_stop,
        validated(researched(s, r)).validation_result != Some("PASS"@),
    ensures
        ({
            let (st, t, a) = advance_spec(Stage::Research, s, EventView::Generated(r));
            &&& st == Stage::Finished
            &&& a == ActionView::Finish
            &&& !t.success
            &&& t.error_messages.len() > 0
            &&& t.report_id == s.report_id
        }),
{
}

/// Relies on uuid's `Uuid::new_v4` and its text form: a fresh random
/// identifier, written in the 36-character hyphenated form.
#[verifier::external_body]
fn new_session_id() -> (r: String)
    ensures
        r@.len() == 36,
{
    uuid::Uuid::new_v4().to_string()
}

fn bump(x: u32) -> (r: u32)
    ensures
        r == bumped(x),
{
    if x < u32::MAX {
        x + 1
    } else {
        x
    }
}

fn finish(state: ReportState) -> (r: (Workflow, Action))
    ensures
        (r.0.stage, r.0.state@, r.1@) == finished(state@),
{
    (Workflow { state, stage: Stage::Finished }, Action::Finish)
}

fn research_ends(state: ReportState) -> (r: (Workflow, Action))
    ensures
        (r.0.stage, r.0.state@, r.1@) == research_exhausted(state@),
{
    finish(fail_step(state, "Maximum research attempts reached"))
}

fn interface_ends(state: ReportState) -> (r: (Workflow, Action))
    ensures
        (r.0.stage, r.0.state@, r.1@) == interface_exhausted(state@),
{
    finish(fail_step(state, "Maximum interface attempts reached"))
}

fn enter_save_step(state: ReportState) -> (r: (Workflow, Action))
    ensures
        (r.0.stage, r.0.state@, r.1@) == enter_save(state@),
{
    let (s, report) = save_start(state);
    match report {
        Some(n) => (Workflow { state: s, stage: Stage::Save }, Action::Save(n)),
        None => finish(s),
    }
}

fn enter_translate_js_step(state: ReportState) -> (r: (Workflow, Action))
    ensures
        (r.0.stage, r.0.state@, r.1@) == enter_translate_js(state@),
{
    match js_translation_request(&state) {
        Some(p) => (
            Workflow { state, stage: Stage::TranslateJs },
            Action::Generate { kind: CallKind::Translation, prompt: p },
        ),
        None => {
            let mut s = state;
            s.success = true;
            enter_save_step(s)
        },
    }
}

fn enter_translate_step(state: ReportState) -> (r: (Workflow, Action))
    ensures
        (r.0.stage, r.0.state@, r.1@) == enter_translate(state@),
{
    if state.rate_limit_stop {
        return enter_save_step(state);
    }
    match html_translation_request(&state) {
        Some(p) => (
            Workflow { state, stage: Stage::TranslateHtml },
            Action::Generate { kind: CallKind::Translation, prompt: p },
        ),
        None => enter_translate_js_step(state),
    }
}

fn enter_interface_step(state: ReportState) -> (r: (Workflow, Action))
    ensures
        (r.0.stage, r.0.state@, r.1@) == enter_interface(state@),
{
    if state.rate_limit_stop {
        return enter_save_step(state);
    }
    let mut s = state;
    loop
        invariant
            enter_interface(s@) == enter_interface(state@),
            !s.rate_limit_stop,
        decreases 3 - s.interface_attempt,
    {
        let before = s.interface_attempt;
        s.interface_attempt = bump(s.interface_attempt);
        let (s1, prompt) = interface_start(s);
        match prompt {
            Some(p) => {
                return (
                    Workflow { state: s1, stage: Stage::CreateInterface },
                    Action::Generate { kind: CallKind::Interface, prompt: p },
                );
            },
            None => {},
        }
        let s2 = extract_code(s1);
        match should_retry_interface_or_continue(&s2) {
            RoutingDecision::Continue => {
                return enter_translate_step(s2);
            },
            RoutingDecision::RetryInterface => {
                if before >= 3 {
                    return interface_ends(s2);
                }
                s = s2;
            },
            _ => {
                return interface_ends(s2);
            },
        }
    }
}

fn enter_content_step(state: ReportState) -> (r: (Workflow, Action))
    ensures
        (r.0.stage, r.0.state@, r.1@) == enter_content(state@),
{
    if state.rate_limit_stop {
        return enter_save_step(state);
    }
    let (s, prompt) = content_start(state);
    match prompt {
        Some(p) => (
            Workflow { state: s, stage: Stage::GenerateContent },
            Action::Generate { kind: CallKind::Content, prompt: p },
        ),
        None => enter_interface_step(s),
    }
}

fn enter_research_step(state: ReportState) -> (r: (Workflow, Action))
    ensures
        (r.0.stage, r.0.state@, r.1@) == enter_research(state@),
{
    if state.rate_limit_stop {
        return enter_save_step(state);
    }
    let mut s = state;
    loop
        invariant
            enter_research(s@) == enter_research(state@),
            !s.rate_limit_stop,
        decreases s.max_attempts - s.current_attempt,
    {
        let before = s.current_attempt;
        s.current_attempt = bump(s.current_attempt);
        let (s1, prompt) = research_start(s);
        match prompt {
            Some(p) => {
                return (
                    Workflow { state: s1, stage: Stage::Research },
                    Action::Generate { kind: CallKind::Research, prompt: p },
                );
            },
            None => {},
        }
        let s2 = validate_report(s1);
        match should_retry_or_continue(&s2) {
            RoutingDecision::Continue => {
                return enter_content_step(s2);
            },
            RoutingDecision::Retry => {
                if before >= s2.max_attempts {
                    return research_ends(s2);
                }
                s = s2;
            },
            _ => {
                return research_ends(s2);
            },
        }
    }
}

impl Workflow {
    /// Starts a run with a fresh session and state; the first work asked for
    /// is loading the prompts.
    pub fn start(api_key: &str, max_attempts: u32) -> (r: (Workflow, Action))
        ensures
            r.0.stage == Stage::Prepare,
            r.1@ == ActionView::LoadPrompts,
            r.0.state@.created_at is Some,
            r.0.state@.session_id.len() == 36,
            r.0.state@ == fresh_state(
                r.0.state@.session_id,
                api_key@,
                max_attempts,
                r.0.state@.created_at->0,
            ),
    {
        let id = new_session_id();
        let state = ReportState::new(id.as_str(), api_key, max_attempts);
        (Workflow { state, stage: Stage::Prepare }, Action::LoadPrompts)
    }

    /// Whether `event` answers the work this run waits for.
    pub fn accepts(&self, event: &Event) -> (r: bool)
        ensures
            r == answers(self.stage, event@),
    {
        match event {
            Event::Prompts(_, _) => self.stage == Stage::Prepare,
            Event::RealtimeData(_) => self.stage == Stage::FetchData,
            Event::Generated(_) => self.stage == Stage::Research || self.stage
                == Stage::GenerateContent || self.stage == Stage::CreateInterface || self.stage
                == Stage::TranslateHtml || self.stage == Stage::TranslateJs,
            Event::Saved(_) => self.stage == Stage::Save,
        }
    }

    /// Takes the outcome of the work asked for and moves the run on to the
    /// next piece of work, or to its end.
    pub fn advance(self, event: Event) -> (r: (Workflow, Action))
        requires
            answers(self.stage, event@),
        ensures
            (r.0.stage, r.0.state@, r.1@) == advance_spec(self.stage, self.state@, event@),
    {
        let stage = self.stage;
        let state = self.state;
        match event {
            Event::Prompts(prompts, date) => {
                let fails = state.api_key.as_str().is_empty()
                    || prompts.combined_research_validation.is_none();
                let s = prepare_data(state, prompts, &date);
                if fails {
                    finish(s)
                } else {
                    (Workflow { state: s, stage: Stage::FetchData }, Action::FetchRealtimeData)
                }
            },
            Event::RealtimeData(data) => {
                let s = attach_realtime_data(state, data);
                enter_research_step(s)
            },
            Event::Generated(reply) => {
                if stage == Stage::Research {
                    let s1 = research_deep(state, reply);
                    if s1.rate_limit_stop {
                        return enter_save_step(s1);
                    }
                    let s = validate_report(s1);
                    match should_retry_or_continue(&s) {
                        RoutingDecision::Continue => enter_content_step(s),
                        RoutingDecision::Retry => enter_research_step(s),
                        _ => research_ends(s),
                    }
                } else if stage == Stage::GenerateContent {
                    enter_interface_step(generate_content(state, reply))
                } else if stage == Stage::CreateInterface {
                    let s1 = create_interface(state, reply);
                    if s1.rate_limit_stop {
                        return enter_save_step(s1);
                    }
                    let s = extract_code(s1);
                    match should_retry_interface_or_continue(&s) {
                        RoutingDecision::Continue => enter_translate_step(s),
                        RoutingDecision::RetryInterface => enter_interface_step(s),
                        _ => interface_ends(s),
                    }
                } else if stage == Stage::TranslateHtml {
                    let (s, stop) = translate_html(state, reply);
                    if stop {
                        enter_save_step(s)
                    } else {
                        enter_translate_js_step(s)
                    }
                } else {
                    let (s, stop) = translate_js(state, reply);
                    if stop {
                        enter_save_step(s)
                    } else {
                        let mut s2 = s;
                        s2.success = true;
                        enter_save_step(s2)
                    }
                }
            },
            Event::Saved(result) => finish(save_to_database(state, result)),
        }
    }
}

} // verus!
