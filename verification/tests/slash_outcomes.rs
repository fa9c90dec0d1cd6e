use caliban::app::{App, Startup, TranscriptLine};
use caliban::overlay::{Overlay, ViewState};
use caliban::slash::dispatch::apply_slash_outcome;
use caliban::slash::SlashOutcome;
use caliban::types::PermissionMode;

const NOW: u64 = 1_000_000;

fn fresh_app() -> App {
    App::new(
        Startup {
            session: None,
            session_store: true,
            no_save: false,
            cwd: "/ws".into(),
            system_prompt: None,
            plan_mode: false,
            permission_mode: PermissionMode::Default,
            bypass_latch: false,
            saved_history: Vec::new(),
            input_history_path: None,
            projects_root: None,
            esc_window_ms: 500,
        },
        NOW,
    )
}

#[test]
fn apply_slash_outcome_continue_is_noop() {
    let mut app = fresh_app();
    let before = app.transcript.len();
    apply_slash_outcome(SlashOutcome::Continue, &mut app);
    assert_eq!(app.transcript.len(), before);
    assert!(!app.should_exit);
}

#[test]
fn apply_slash_outcome_quit_sets_should_exit() {
    let mut app = fresh_app();
    apply_slash_outcome(SlashOutcome::Quit, &mut app);
    assert!(app.should_exit);
}

#[test]
fn apply_slash_outcome_overlay_sets_view() {
    let mut app = fresh_app();
    apply_slash_outcome(SlashOutcome::Overlay(Overlay::Permissions), &mut app);
    assert!(matches!(app.view, ViewState::Overlay(Overlay::Permissions)));
}

#[test]
fn apply_slash_outcome_status_message_records_transcript_and_status() {
    let mut app = fresh_app();
    apply_slash_outcome(
        SlashOutcome::StatusMessage("hello status".into()),
        &mut app,
    );
    assert_eq!(app.last_status_message.as_deref(), Some("hello status"));
    assert!(matches!(
        app.transcript.last(),
        Some(TranscriptLine::Info(m)) if m == "hello status"
    ));
}

#[test]
fn apply_slash_outcome_insert_text_fills_buffer() {
    let mut app = fresh_app();
    apply_slash_outcome(SlashOutcome::InsertText("/foo bar".into()), &mut app);
    assert_eq!(app.input.buffer, "/foo bar");
    assert_eq!(app.input.cursor, app.input.buffer.len());
}

#[test]
fn apply_slash_outcome_reload_emits_info_line() {
    let mut app = fresh_app();
    apply_slash_outcome(SlashOutcome::Reload, &mut app);
    assert!(matches!(
        app.transcript.last(),
        Some(TranscriptLine::Info(m)) if m.contains("reload requested")
    ));
}
