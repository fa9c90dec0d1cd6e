use caliban::agent_events::{
    handle_agent_error, handle_agent_event, stopped_for_surface, AgentError, StopCondition,
    StoppedForLevel, TurnEvent,
};
use caliban::app::{Activity, App, RunningTurn, Startup, TranscriptLine};
use caliban::effect::{Effect, Usage};
use caliban::types::{ContentBlock, Message, PermissionMode};

const NOW: u64 = 1_000_000;

fn fresh_app() -> App {
    App::new(
        Startup {
            session: None,
            session_store: true,
            no_save: false,
            cwd: "/ws".into(),
            system_prompt: None,
            plan_mode: false,
            permission_mode: PermissionMode::Default,
            bypass_latch: false,
            saved_history: Vec::new(),
            input_history_path: None,
            projects_root: None,
            esc_window_ms: 500,
        },
        NOW,
    )
}

fn app_with_running_turn() -> App {
    let mut app = fresh_app();
    app.running = Some(RunningTurn { activity: Activity::WaitingForModel { since: NOW } });
    app
}

fn usage(input_tokens: u32, output_tokens: u32) -> Usage {
    Usage {
        input_tokens,
        output_tokens,
        cache_read_input_tokens: None,
        cache_creation_input_tokens: None,
    }
}

#[test]
fn end_of_turn_is_silent() {
    assert!(stopped_for_surface(&StopCondition::EndOfTurn).is_none());
}

#[test]
fn provider_error_surfaces_as_error_with_caliban_framing() {
    let s = stopped_for_surface(&StopCondition::ProviderError(
        "HTTP 400: context length exceeded".to_string(),
    ))
    .expect("provider error must surface");
    assert_eq!(s.level, StoppedForLevel::Error);
    assert_eq!(
        s.line,
        "[caliban: provider error: HTTP 400: context length exceeded]",
    );
}

#[test]
fn hook_denied_and_compaction_failed_surface_as_error() {
    let hd = stopped_for_surface(&StopCondition::HookDenied(
        "policy: 'Bash' blocked".to_string(),
    ))
    .expect("hook denial must surface");
    assert_eq!(hd.level, StoppedForLevel::Error);
    assert_eq!(hd.line, "[caliban: hook denied: policy: 'Bash' blocked]");

    let cf = stopped_for_surface(&StopCondition::CompactionFailed(
        "out of budget".to_string(),
    ))
    .expect("compaction failure must surface");
    assert_eq!(cf.level, StoppedForLevel::Error);
    assert_eq!(cf.line, "[caliban: compaction failed: out of budget]");
}

#[test]
fn max_turns_and_cancelled_surface_as_info() {
    let mt = stopped_for_surface(&StopCondition::MaxTurnsReached(7))
        .expect("max-turns must surface");
    assert_eq!(mt.level, StoppedForLevel::Info);
    assert_eq!(mt.line, "[caliban: max-turns (7) reached]");

    let c = stopped_for_surface(&StopCondition::Cancelled).expect("cancellation must surface");
    assert_eq!(c.level, StoppedForLevel::Info);
    assert_eq!(c.line, "[caliban: cancelled]");
}

#[test]
fn max_tokens_exhausted_surfaces_as_error_with_effort_hint() {
    let s = stopped_for_surface(&StopCondition::MaxTokensExhausted)
        .expect("max-tokens-exhausted must surface");
    assert_eq!(s.level, StoppedForLevel::Error);
    assert_eq!(
        s.line,
        "[caliban: max output tokens exhausted — try /effort low]",
    );
}

#[test]
fn refusal_surfaces_as_error() {
    let s = stopped_for_surface(&StopCondition::Refusal("no can do".to_string()))
        .expect("refusal must surface");
    assert_eq!(s.level, StoppedForLevel::Error);
    assert_eq!(s.line, "[caliban: model refusal: no can do]");
}

#[test]
fn content_filter_surfaces_as_error() {
    let s = stopped_for_surface(&StopCondition::ContentFilter("blocked".to_string()))
        .expect("content filter must surface");
    assert_eq!(s.level, StoppedForLevel::Error);
    assert_eq!(s.line, "[caliban: content filter: blocked]");
}

#[test]
fn stream_idle_surfaces_as_error_with_seconds() {
    let s = stopped_for_surface(&StopCondition::StreamIdle { secs: 12 })
    .expect("stream idle must surface");
    assert_eq!(s.level, StoppedForLevel::Error);
    assert_eq!(s.line, "[caliban: stream idle for 12s]");
}

#[test]
fn agent_event_text_delta_appends_and_sets_streaming() {
    let mut app = app_with_running_turn();
    handle_agent_event(&TurnEvent::AssistantTextDelta {
            text: "hello ".into(),
        }, &mut app, NOW);
    handle_agent_event(&TurnEvent::AssistantTextDelta {
            text: "world".into(),
        }, &mut app, NOW);
    // Two deltas coalesce into one AssistantText line.
    assert!(matches!(
        app.transcript.last(),
        Some(TranscriptLine::AssistantText(s)) if s == "hello world"
    ));
    assert!(matches!(
        app.running.as_ref().unwrap().activity,
        Activity::Streaming { .. }
    ));
}

#[test]
fn agent_event_thinking_delta_appends_and_sets_thinking() {
    let mut app = app_with_running_turn();
    handle_agent_event(&TurnEvent::AssistantThinkingDelta {
            text: "pondering".into(),
        }, &mut app, NOW);
    assert!(matches!(
        app.transcript.last(),
        Some(TranscriptLine::AssistantThinking(s)) if s == "pondering"
    ));
    assert!(matches!(
        app.running.as_ref().unwrap().activity,
        Activity::Thinking { .. }
    ));
}

#[test]
fn agent_event_tool_call_lifecycle_start_input_end() {
    let mut app = app_with_running_turn();
    handle_agent_event(&TurnEvent::ToolCallStart {
            tool_use_id: "tc1".into(),
            name: "Bash".into(),
        }, &mut app, NOW);
    assert!(matches!(
        app.running.as_ref().unwrap().activity,
        Activity::DispatchingTool { .. }
    ));
    handle_agent_event(&TurnEvent::ToolCallInputDelta {
            tool_use_id: "tc1".into(),
            partial_json: "{\"cmd\":".into(),
        }, &mut app, NOW);
    handle_agent_event(&TurnEvent::ToolCallInputDelta {
            tool_use_id: "tc1".into(),
            partial_json: "\"ls\"}".into(),
        }, &mut app, NOW);
    handle_agent_event(&TurnEvent::ToolCallEnd {
            tool_use_id: "tc1".into(),
            is_error: false,
            content: vec![ContentBlock::Text("ok-result".into())],
        }, &mut app, NOW);
    // After ToolCallEnd, activity reverts to waiting-for-model.
    assert!(matches!(
        app.running.as_ref().unwrap().activity,
        Activity::WaitingForModel { .. }
    ));
    // The ToolCall line accumulated the input JSON and the result.
    let found = app.transcript.iter().any(|l| {
        matches!(
            l,
            TranscriptLine::ToolCall { tool_use_id, input, result, .. }
                if tool_use_id == "tc1"
                    && input == "{\"cmd\":\"ls\"}"
                    && matches!(result, Some((false, r)) if r == "ok-result")
        )
    });
    assert!(found, "tool-call line must carry input + result");
}

#[test]
fn agent_event_turn_end_records_ttft_cost_and_blank_line() {
    let mut app = app_with_running_turn();
    let before_len = app.transcript.len();
    app.messages = vec![Message::user_text("asked")];
    let effects = handle_agent_event(&TurnEvent::TurnEnd {
            assistant_message: Message::assistant_text("done"),
            usage: usage(10, 5),
            ttft_ms: Some(123),
        }, &mut app, NOW);
    // The turn's cost is booked, and the context is measured with the
    // assistant's message behind the conversation.
    assert_eq!(
        effects,
        vec![
            Effect::BookTurn(usage(10, 5)),
            Effect::MeasureContext(vec![
                Message::user_text("asked"),
                Message::assistant_text("done"),
            ]),
        ],
    );
    assert_eq!(app.messages.len(), 1);
    assert_eq!(app.last_turn_ttft_ms, Some(123));
    // A blank AssistantText line is pushed for separation.
    assert!(app.transcript.len() > before_len);
    assert!(matches!(
        app.transcript.last(),
        Some(TranscriptLine::AssistantText(s)) if s.is_empty()
    ));
}

#[test]
fn agent_event_run_end_surfaces_stop_pushes_usage_and_resets() {
    let mut app = app_with_running_turn();
    app.auto_scroll = false;
    handle_agent_event(&TurnEvent::RunEnd {
            final_messages: vec![Message::user_text("hi")],
            total_usage: usage(42, 7),
            turn_count: 3,
            stopped_for: StopCondition::Cancelled,
        }, &mut app, NOW);
    // Cancelled surfaces as an Info line.
    assert!(
        app.transcript
            .iter()
            .any(|l| matches!(l, TranscriptLine::Info(s) if s == "[caliban: cancelled]")),
        "Cancelled stop condition must surface as an Info line"
    );
    // A usage summary lands with the run totals.
    assert!(
        app.transcript.iter().any(|l| matches!(
            l,
            TranscriptLine::UsageSummary { input_tokens, output_tokens, turn_count, .. }
                if *input_tokens == 42 && *output_tokens == 7 && *turn_count == 3
        )),
        "RunEnd must push a UsageSummary with the run totals"
    );
    assert!(app.running.is_none(), "RunEnd clears the running turn");
    assert!(app.auto_scroll, "RunEnd re-pins auto-scroll");
    assert_eq!(app.messages.len(), 1, "messages mirror final_messages");
}

#[test]
fn agent_event_run_end_error_stop_pushes_error_and_toast() {
    let mut app = app_with_running_turn();
    handle_agent_event(&TurnEvent::RunEnd {
            final_messages: Vec::new(),
            total_usage: usage(0, 0),
            turn_count: 1,
            stopped_for: StopCondition::ProviderError("boom".into()),
        }, &mut app, NOW);
    assert!(
        app.transcript.iter().any(|l| matches!(
            l,
            TranscriptLine::Error(s) if s.contains("provider error: boom")
        )),
        "error stop condition surfaces as an Error transcript line"
    );
    assert!(
        app.toast.is_some(),
        "error stop condition also raises a toast"
    );
}

#[test]
fn handle_agent_error_cancelled_is_info_and_clears_running() {
    let mut app = app_with_running_turn();
    handle_agent_error(&AgentError::Cancelled, &mut app);
    assert!(matches!(
        app.transcript.last(),
        Some(TranscriptLine::Info(s)) if s == "turn cancelled"
    ));
    assert!(app.running.is_none());
}
