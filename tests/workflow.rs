use ai_report_generator::steps::{DateStamp, PromptSet, Reply};
use ai_report_generator::workflow::{Action, CallKind, Event, Stage, Workflow};

fn prompts() -> PromptSet {
    PromptSet {
        combined_research_validation: Some("Research {{DATE}} {{REAL_TIME_DATA}}".to_string()),
        data_validation: None,
        create_report: Some("Write".to_string()),
        generate_report: None,
        translate_html: None,
        translate_js: None,
    }
}

fn date() -> DateStamp {
    DateStamp {
        day: "05".to_string(),
        month: "03".to_string(),
        year: "2025".to_string(),
    }
}

fn text(s: &str) -> Event {
    Event::Generated(Reply::Text(s.to_string()))
}

fn prepared(max_attempts: u32) -> (Workflow, Action) {
    let (wf, action) = Workflow::start("key", max_attempts);
    assert!(matches!(action, Action::LoadPrompts));
    let (wf, action) = wf.advance(Event::Prompts(prompts(), date()));
    assert!(matches!(action, Action::FetchRealtimeData));
    wf.advance(Event::RealtimeData(Some("DATA".to_string())))
}

#[test]
fn session_ids_are_fresh() {
    let (a, _) = Workflow::start("key", 3);
    let (b, _) = Workflow::start("key", 3);
    assert_eq!(a.state.session_id.len(), 36);
    assert_ne!(a.state.session_id, b.state.session_id);
}

#[test]
fn failing_validation_twice_ends_the_run() {
    let (wf, action) = prepared(2);
    match &action {
        Action::Generate { kind, prompt } => {
            assert_eq!(*kind, CallKind::Research);
            assert_eq!(prompt, "Research 2025-03-05 DATA");
        }
        _ => panic!("expected a research call"),
    }
    assert_eq!(wf.state.current_attempt, 1);
    let (wf, action) = wf.advance(text("KẾT QUẢ KIỂM TRA: FAIL"));
    assert!(matches!(action, Action::Generate { kind: CallKind::Research, .. }));
    assert_eq!(wf.state.current_attempt, 2);
    let (wf, action) = wf.advance(text("KẾT QUẢ KIỂM TRA: FAIL"));
    assert!(matches!(action, Action::Finish));
    assert_eq!(wf.stage, Stage::Finished);
    assert_eq!(wf.state.current_attempt, 2);
    assert_eq!(wf.state.max_attempts, 2);
    assert!(!wf.state.success);
    assert!(!wf.state.error_messages.is_empty());
    assert_eq!(wf.state.report_id, None);
}

#[test]
fn rate_limit_skips_to_the_save_step() {
    let (wf, _) = prepared(3);
    let (wf, action) = wf.advance(text("KẾT QUẢ KIỂM TRA: PASS"));
    assert!(matches!(action, Action::Generate { kind: CallKind::Content, .. }));
    let (wf, action) = wf.advance(Event::Generated(Reply::Failed {
        status: Some(429),
        message: "API request failed with status 429 Too Many Requests".to_string(),
    }));
    assert!(matches!(action, Action::Finish));
    assert!(wf.state.rate_limit_stop);
    assert!(!wf.state.success);
    assert_eq!(
        wf.state.error_messages.last(),
        Some(&"Skipped save due to rate limit".to_string())
    );
    assert_eq!(wf.state.report_id, None);
}

#[test]
fn rate_limit_during_research_skips_to_the_save_step() {
    let (wf, _) = prepared(3);
    let (wf, action) = wf.advance(Event::Generated(Reply::Failed {
        status: None,
        message: "quota exceeded".to_string(),
    }));
    assert!(matches!(action, Action::Finish));
    assert!(wf.state.rate_limit_stop);
    assert!(!wf.state.success);
    assert_eq!(
        wf.state.error_messages,
        vec![
            "Rate limit encountered - stopping workflow".to_string(),
            "Skipped save due to rate limit".to_string()
        ]
    );
}

#[test]
fn full_run_saves_the_report() {
    let (wf, _) = prepared(3);
    let (wf, action) = wf.advance(text("KẾT QUẢ KIỂM TRA: PASS"));
    match &action {
        Action::Generate { prompt, .. } => {
            assert!(prompt.starts_with("Write\n\n## Research Content:\n"))
        }
        _ => panic!("expected a content call"),
    }
    let (wf, action) = wf.advance(text("# Report"));
    assert!(matches!(action, Action::Generate { kind: CallKind::Interface, .. }));
    assert_eq!(wf.state.interface_attempt, 1);
    let (wf, action) = wf.advance(text("```html\n<p>Xin chào</p>\n```\n```javascript\nrun();\n```"));
    assert!(matches!(action, Action::Generate { kind: CallKind::Translation, .. }));
    let (wf, action) = wf.advance(text("<p>Hello</p>"));
    assert!(matches!(action, Action::Generate { kind: CallKind::Translation, .. }));
    let (wf, action) = wf.advance(text("```js\nrun();\n```"));
    let report = match action {
        Action::Save(r) => r,
        _ => panic!("expected a save"),
    };
    assert_eq!(report.html_content, "<p>Xin chào</p>");
    assert_eq!(report.html_content_en, Some("<p>Hello</p>".to_string()));
    assert_eq!(report.js_content, Some("run();".to_string()));
    assert_eq!(report.js_content_en, Some("run();".to_string()));
    assert_eq!(report.css_content, None);
    let (wf, action) = wf.advance(Event::Saved(Ok(42)));
    assert!(matches!(action, Action::Finish));
    assert!(wf.state.success);
    assert_eq!(wf.state.report_id, Some(42));
    assert!(wf.state.error_messages.is_empty());
}

#[test]
fn interface_loop_stops_after_three_attempts() {
    let (wf, _) = prepared(3);
    let (wf, _) = wf.advance(text("KẾT QUẢ KIỂM TRA: PASS"));
    let (mut wf, mut action) = wf.advance(text("# Report"));
    for attempt in 1..=3u32 {
        assert!(matches!(action, Action::Generate { kind: CallKind::Interface, .. }));
        assert_eq!(wf.state.interface_attempt, attempt);
        let next = wf.advance(text("no code"));
        wf = next.0;
        action = next.1;
    }
    assert!(matches!(action, Action::Finish));
    assert!(!wf.state.success);
    assert_eq!(
        wf.state.error_messages.last(),
        Some(&"Maximum interface attempts reached".to_string())
    );
}

#[test]
fn missing_key_ends_at_preparation() {
    let (wf, _) = Workflow::start("", 3);
    let (wf, action) = wf.advance(Event::Prompts(prompts(), date()));
    assert!(matches!(action, Action::Finish));
    assert!(!wf.state.success);
}

#[test]
fn accepts_only_the_awaited_answer() {
    let (wf, _) = Workflow::start("key", 3);
    assert!(wf.accepts(&Event::Prompts(prompts(), date())));
    assert!(!wf.accepts(&Event::Saved(Ok(1))));
}

#[test]
fn interface_falls_back_to_research_content() {
    let (wf, _) = prepared(3);
    let (wf, _) = wf.advance(text("KẾT QUẢ KIỂM TRA: PASS research body"));
    let (wf, action) = wf.advance(Event::Generated(Reply::Failed {
        status: Some(500),
        message: "server error".to_string(),
    }));
    match &action {
        Action::Generate { kind, prompt } => {
            assert_eq!(*kind, CallKind::Interface);
            assert!(prompt.contains("KẾT QUẢ KIỂM TRA: PASS research body"));
        }
        _ => panic!("expected an interface call"),
    }
    assert_eq!(wf.state.report_content, None);
    assert_eq!(wf.state.interface_attempt, 1);
}
