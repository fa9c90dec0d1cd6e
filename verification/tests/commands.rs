use caliban::app::{App, Effort, Startup, TranscriptLine};
use caliban::effect::Effect;
use caliban::overlay::{Overlay, ViewState};
use caliban::slash::answers::{
    command_answered, export_conversation, export_written, model_swapped, Gathered,
};
use caliban::slash::config::{hooks_lines, HookEvent};
use caliban::slash::dispatch::handle_slash_command;
use caliban::slash::dx::{loop_line, statusline_message, StatuslineConfig};
use caliban::slash::existing::toggle_plan;
use caliban::slash::export::{
    export_format, export_target, exported_message, render_markdown, render_session, ExportFormat,
};
use caliban::slash::model::{
    effort_message, is_model_list, models_lines, parse_effort, KnownModel,
};
use caliban::slash::observe::{compact_finished, doctor_is_deep, Compaction};
use caliban::slash::Command;
use caliban::types::{texts_of_blocks, Message, PermissionMode};

const NOW: u64 = 1_000_000;

fn fresh_app() -> App {
    App::new(
        Startup {
            session: None,
            session_store: true,
            no_save: false,
            cwd: "/ws".into(),
            system_prompt: None,
            plan_mode: false,
            permission_mode: PermissionMode::Default,
            bypass_latch: false,
            saved_history: Vec::new(),
            input_history_path: None,
            projects_root: None,
            esc_window_ms: 500,
        },
        NOW,
    )
}

fn run(app: &mut App, line: &str) -> Vec<Effect> {
    handle_slash_command(line, app)
}

fn info_lines(app: &App) -> Vec<String> {
    app.transcript
        .iter()
        .filter_map(|l| match l {
            TranscriptLine::Info(s) => Some(s.clone()),
            _ => None,
        })
        .collect()
}

/// An agent with some models, which carries out what commands ask for.
struct Agent {
    active: String,
    models: Vec<String>,
    effort: Option<Effort>,
    /// The files that were written.
    written: Vec<(String, String)>,
}

impl Agent {
    fn with_models(ids: &[&str]) -> Agent {
        Agent {
            active: ids[0].to_string(),
            models: ids.iter().map(|id| id.to_string()).collect(),
            effort: None,
            written: Vec::new(),
        }
    }

    fn json(&self, app: &App) -> String {
        let messages: Vec<serde_json::Value> = app
            .messages
            .iter()
            .map(|m| {
                let text = texts_of_blocks(&m.content).join("\n");
                let mut fields = serde_json::Map::new();
                fields.insert("content".into(), serde_json::Value::String(text));
                serde_json::Value::Object(fields)
            })
            .collect();
        let mut fields = serde_json::Map::new();
        fields.insert("model".into(), serde_json::Value::String(self.active.clone()));
        fields.insert("messages".into(), serde_json::Value::Array(messages));
        serde_json::Value::Object(fields).to_string()
    }

    fn carry_out(&mut self, app: &mut App, effects: Vec<Effect>) {
        for effect in effects {
            match effect {
                Effect::SwapModel(id) => {
                    let error = if self.models.contains(&id) {
                        self.active = id.clone();
                        None
                    } else {
                        Some(format!("model `{id}` is not available"))
                    };
                    model_swapped(app, &id, error.as_deref());
                }
                Effect::SetEffort(e) => self.effort = Some(e),
                Effect::RunCommand { command: Command::Model, .. } => {
                    let models = self
                        .models
                        .iter()
                        .map(|id| KnownModel { id: id.clone(), max_input_tokens: 8000 })
                        .collect();
                    let gathered = Gathered::Models {
                        active: self.active.clone(),
                        provider: "mock".into(),
                        models,
                    };
                    command_answered(app, &gathered);
                }
                Effect::RunCommand { command: Command::Export, args } => {
                    let json = self.json(app);
                    let more =
                        export_conversation(app, &args, &self.active, "2026-07-03", &json);
                    self.carry_out(app, more);
                }
                Effect::WriteFile { path, body } => {
                    export_written(app, &path, None);
                    self.written.push((path, body));
                }
                other => panic!("not asked for: {other:?}"),
            }
        }
    }
}

#[test]
fn unknown_commands_only_say_so() {
    let mut app = fresh_app();
    let effects = run(&mut app, "/nonsense now");
    assert!(effects.is_empty());
    assert_eq!(app.transcript.len(), 1);
    assert!(matches!(
        app.transcript.last(),
        Some(TranscriptLine::Error(s) | TranscriptLine::Info(s)) if s.contains("/nonsense")
    ));
}

#[test]
fn overlays_open_by_command() {
    for (line, overlay) in [
        ("/help", Overlay::SlashHelp),
        ("/config", Overlay::Config),
        ("/mcp", Overlay::Mcp),
        ("/system", Overlay::System),
        ("/permissions", Overlay::Permissions),
        ("/rewind", Overlay::Rewind),
    ] {
        let mut app = fresh_app();
        assert!(run(&mut app, line).is_empty(), "{line}");
        assert_eq!(app.view, ViewState::Overlay(overlay), "{line}");
    }
}

#[test]
fn quit_and_exit_leave() {
    for line in ["/quit", "/exit"] {
        let mut app = fresh_app();
        run(&mut app, line);
        assert!(app.should_exit, "{line}");
    }
}

#[test]
fn clear_resets_context_window() {
    let mut app = fresh_app();
    let long = Message::user_text(&"x".repeat(20_000));
    app.messages = vec![long];
    app.transcript.push(TranscriptLine::Info("old".into()));
    // The context is measured again, over an empty conversation.
    assert_eq!(run(&mut app, "/clear"), vec![Effect::MeasureContext(Vec::new())]);
    assert!(app.messages.is_empty());
    assert!(!app
        .transcript
        .iter()
        .any(|l| matches!(l, TranscriptLine::Info(s) if s == "old")));
}

#[test]
fn plan_mode_toggles() {
    let mut app = fresh_app();
    toggle_plan(&mut app);
    assert!(app.plan_mode);
    toggle_plan(&mut app);
    assert!(!app.plan_mode);
}

#[test]
fn model_with_no_args_lists_known_models() {
    let mut app = fresh_app();
    let mut agent = Agent::with_models(&["model-A", "model-B"]);
    let effects = run(&mut app, "/model");
    assert_eq!(effects, vec![Effect::RunCommand { command: Command::Model, args: String::new() }]);
    agent.carry_out(&mut app, effects);
    assert_eq!(app.last_status_message, None);
    let body = info_lines(&app).join("\n");
    assert!(body.contains("model-A"));
    assert!(body.contains("model-B"));
}

#[test]
fn models_are_listed_with_the_active_one_marked() {
    assert!(is_model_list(""));
    assert!(is_model_list("  "));
    assert!(!is_model_list("gpt"));
    let models = vec![
        KnownModel { id: "mock".into(), max_input_tokens: 8000 },
        KnownModel { id: "mock-2".into(), max_input_tokens: 16000 },
    ];
    let lines = models_lines("mock", "anthropic", &models);
    assert_eq!(lines[0], "active model: mock (provider: anthropic)");
    assert_eq!(lines[1], "2 model(s) on `anthropic`:");
    assert_eq!(lines[2], "  * mock \u{2014} 8000 ctx");
    assert_eq!(lines[3], "    mock-2 \u{2014} 16000 ctx");
    let none = models_lines("mock", "ollama", &Vec::new());
    assert!(none[1].contains("no known-model list"));
}

#[test]
fn model_with_id_swaps_active_model() {
    let mut app = fresh_app();
    let mut agent = Agent::with_models(&["model-A", "model-B"]);
    assert_eq!(agent.active, "model-A");
    let effects = run(&mut app, "/model model-B");
    assert_eq!(effects, vec![Effect::SwapModel("model-B".into())]);
    agent.carry_out(&mut app, effects);
    let said = app.last_status_message.as_ref().expect("a status message");
    assert!(said.contains("model-B"), "unexpected message: {said}");
    assert_eq!(agent.active, "model-B");
}

#[test]
fn model_with_unknown_id_reports_error_and_leaves_active_unchanged() {
    let mut app = fresh_app();
    let mut agent = Agent::with_models(&["model-A"]);
    let effects = run(&mut app, "/model nope");
    agent.carry_out(&mut app, effects);
    let said = app.last_status_message.as_ref().expect("a status message");
    assert!(
        said.contains("not available") || said.contains("/model:"),
        "unexpected message: {said}"
    );
    assert_eq!(agent.active, "model-A");
}

#[test]
fn effort_low_updates_shared_state() {
    let mut app = fresh_app();
    let mut agent = Agent::with_models(&["mock"]);
    let effects = run(&mut app, "/effort low");
    agent.carry_out(&mut app, effects);
    assert!(app.last_status_message.is_some());
    assert_eq!(agent.effort, Some(Effort::Low));
    assert_eq!(parse_effort(" MAX "), Some(Effort::Max));
    assert!(effort_message("low").starts_with("effort \u{2192} "));
}

#[test]
fn effort_invalid_returns_error_message() {
    let mut app = fresh_app();
    assert!(run(&mut app, "/effort turbo").is_empty());
    let said = app.last_status_message.as_ref().expect("a status message");
    assert!(
        said.contains("expected low|medium|high|max|auto"),
        "unexpected message: {said}"
    );
    assert_eq!(parse_effort("huge"), None);
    assert_eq!(
        effort_message("Huge"),
        "/effort: unknown level `huge` (expected low|medium|high|max|auto)"
    );
}

#[test]
fn hooks_are_listed_by_event() {
    let events = vec![HookEvent { event: "PreToolUse".into(), handlers: 2 }];
    let lines = hooks_lines(2, &events, true);
    assert_eq!(lines[0], "2 hook handler(s) loaded across 1 event(s):");
    assert_eq!(lines[1], "  PreToolUse \u{2192} 2 handler(s)");
    assert_eq!(lines[2], "kill switch active (disable_all_hooks = true)");
    assert!(hooks_lines(0, &Vec::new(), false)[0].starts_with("no hooks configured"));
}

#[test]
fn loops_are_bounded_by_the_turn_limit() {
    let line = loop_line("--n=9 --interval=30", 5);
    assert!(line.contains("planned 9 repeats every 30s; bounded to 5 by --max-turns=5"), "{line}");
    assert!(loop_line("", 50).contains("planned 3 repeats every 15s; bounded to 3"));
    assert!(loop_line("--n=oops", 50).contains("planned 3 repeats"));
}

#[test]
fn the_status_line_is_described() {
    assert!(statusline_message(&None).contains("unset"));
    let said = statusline_message(&Some(StatuslineConfig {
        command: "git branch".into(),
        timeout_ms: 500,
        padding: 1,
    }));
    assert!(said.contains("active: `git branch` (timeout 500 ms, padding 1)"), "{said}");
}

#[test]
fn exports_name_their_file() {
    assert_eq!(
        export_target("", "2026-07-03").as_deref(),
        Some("caliban-session-2026-07-03.md")
    );
    assert_eq!(
        export_target("out.json --format json", "2026-07-03").as_deref(),
        Some("out.json")
    );
    assert_eq!(export_target("out.md", "2026-07-03").as_deref(), Some("out.md"));
    assert_eq!(export_target("-", "2026-07-03"), None);
    assert!(exported_message("out.md", Some("disk full")).contains("disk full"));
}

#[test]
fn export_writes_markdown_file() {
    let mut app = fresh_app();
    let mut agent = Agent::with_models(&["mock"]);
    app.messages.push(Message::user_text("hi"));
    app.messages.push(Message::assistant_text("hello"));
    let effects = run(&mut app, "/export session.md");
    agent.carry_out(&mut app, effects);
    let said = app.last_status_message.as_ref().expect("a status message");
    assert!(said.contains("exported"));
    let (path, body) = agent.written.last().expect("a file");
    assert_eq!(path, "session.md");
    assert!(body.contains("hi"));
    assert!(body.contains("hello"));
    assert!(body.starts_with("# caliban session"));
}

#[test]
fn export_writes_json_when_format_flag_set() {
    let mut app = fresh_app();
    let mut agent = Agent::with_models(&["mock"]);
    app.messages.push(Message::user_text("hi"));
    let effects = run(&mut app, "/export session.json --format json");
    agent.carry_out(&mut app, effects);
    let (path, body) = agent.written.last().expect("a file");
    assert_eq!(path, "session.json");
    let parsed: serde_json::Value = serde_json::from_str(body).unwrap();
    assert!(parsed["messages"].is_array());
    assert_eq!(parsed["messages"][0]["content"], "hi");
}

#[test]
fn the_format_is_not_taken_for_the_file() {
    let mut app = fresh_app();
    let mut agent = Agent::with_models(&["mock"]);
    let effects = run(&mut app, "/export --format json");
    agent.carry_out(&mut app, effects);
    assert_eq!(agent.written.len(), 1);
    assert_eq!(agent.written[0].0, "caliban-session-2026-07-03.json");
    assert_eq!(
        app.last_status_message.as_deref(),
        Some("exported to caliban-session-2026-07-03.json")
    );
    let target = |args| export_target(args, "2026-07-03");
    assert_eq!(target("--format json out.json").as_deref(), Some("out.json"));
    assert_eq!(target("--format").as_deref(), Some("caliban-session-2026-07-03.md"));
    assert_eq!(target("--format json -"), None);
    assert!(matches!(export_format("out.json --format json"), ExportFormat::Json));
    assert!(matches!(export_format(""), ExportFormat::Markdown));
    let messages = vec![Message::user_text("hello")];
    assert_eq!(
        render_session(&messages, "mock", "2026-07-03", ExportFormat::Markdown, "{}"),
        render_markdown(&messages, "mock", "2026-07-03"),
    );
}

#[test]
fn a_failed_compaction_keeps_the_conversation() {
    let mut app = fresh_app();
    app.messages = vec![Message::user_text("hi"), Message::assistant_text("there")];
    compact_finished(&mut app, &Compaction::Failed("no budget".into()), "summarize", 100);
    assert_eq!(app.messages.len(), 2);
    compact_finished(
        &mut app,
        &Compaction::Compacted { messages: vec![Message::user_text("short")], tokens: 10 },
        "summarize",
        100,
    );
    assert_eq!(app.messages.len(), 1);
}

#[test]
fn the_doctor_digs_deep_when_asked() {
    assert!(!doctor_is_deep(""));
    assert!(doctor_is_deep("--deep"));
}
