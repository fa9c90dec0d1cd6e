use caliban::agent_events::{
    handle_agent_event, run_merged, session_saved, MergedRun, StopCondition, TurnEvent,
};
use caliban::app::{
    App, Effort, PermissionsTab, RuleSources, Session, Startup, TranscriptLine,
};
use caliban::ask::AskRequest;
use caliban::effect::{Effect, Usage};
use caliban::events::{drain_one_queued, handle_key, history_loaded};
use caliban::json::parse_tool_input;
use caliban::overlay::{Overlay, ViewState};
use caliban::permissions::{
    handle_permissions_overlay_key, permissions_test_input, permissions_test_rules,
    request_arrived, rule_deleted, rule_saved, run_permissions_test, DeleteRuleResult,
};
use caliban::render::transcript::format_parsed_input;
use caliban::reverse_history::HistorySource;
use caliban::rewind::{
    plan_rewind, report_rewind, ConversationRestore, RewindAction, RewindPlan, RewindRequest,
    RewindResult,
};
use caliban::slash::cost::{CostBreakdown, Usd};
use caliban::slash::existing::{
    memory_loaded, output_style_lines, skills_report, topic_delete_checked, topic_deleted,
    topic_edit_checked, topic_read, topics_listed, MemorySummary, OutputStyle, Skill, Topic,
    TopicFile,
};
use caliban::slash::export::{no_clipboard_message, run_export};
use caliban::slash::model::status_line;
use caliban::slash::observe::{
    doctor_lines, render_context_lines, render_usage_lines, ActiveSchemas, Check, ContextBin,
    ContextUsage,
};
use caliban::slash::think::{describe, think_report};
use caliban::slash::{SlashOutcome, ThinkingSetting};
use caliban::style::{clone_lines, Line};
use caliban::types::{
    Action, DefaultRule, Field, FieldValue, FileRule, KeyCode, KeyEvent, KeyModifiers, Message,
    PermissionMode, RuntimeRule, Scope, ToolInput,
};
use caliban::version::long_version;

const NOW: u64 = 1_000_000;

fn fresh_app() -> App {
    App::new(
        Startup {
            session: None,
            session_store: true,
            no_save: false,
            cwd: "/ws".into(),
            system_prompt: None,
            plan_mode: false,
            permission_mode: PermissionMode::Default,
            bypass_latch: false,
            saved_history: Vec::new(),
            input_history_path: Some("/h/input-history.txt".into()),
            projects_root: None,
            esc_window_ms: 500,
        },
        NOW,
    )
}

fn rules() -> RuleSources {
    RuleSources {
        file: vec![FileRule {
            pattern: "Bash:make *".into(),
            action: Action::Allow,
            comment: None,
            scope: Scope::Project,
            path: Some("/ws/.caliban/permissions.toml".into()),
            index_in_scope: 0,
        }],
        defaults: vec![DefaultRule { pattern: "Read".into(), action: Action::Allow, comment: None }],
    }
}

fn key(code: KeyCode) -> KeyEvent {
    KeyEvent::new(code, KeyModifiers::none())
}

fn press(app: &mut App, k: KeyEvent) -> Vec<Effect> {
    handle_key(k, app, &rules(), NOW)
}

fn type_line(app: &mut App, line: &str) -> Vec<Effect> {
    for c in line.chars() {
        press(app, key(KeyCode::Char(c)));
    }
    press(app, key(KeyCode::Enter))
}

fn infos(app: &App) -> Vec<&str> {
    app.transcript
        .iter()
        .filter_map(|l| match l {
            TranscriptLine::Info(s) => Some(s.as_str()),
            _ => None,
        })
        .collect()
}

fn errors(app: &App) -> Vec<&str> {
    app.transcript
        .iter()
        .filter_map(|l| match l {
            TranscriptLine::Error(s) => Some(s.as_str()),
            _ => None,
        })
        .collect()
}

fn notice(app: &App) -> &str {
    app.toast.as_ref().expect("a notice").text.as_str()
}

#[test]
fn a_prompt_is_remembered_and_goes_to_the_hooks() {
    let mut app = fresh_app();
    let effects = type_line(&mut app, " hello ");
    assert_eq!(
        effects,
        vec![
            Effect::AppendHistory {
                path: "/h/input-history.txt".into(),
                line: " hello ".into(),
            },
            Effect::FireHook { prompt: "hello".into(), line: " hello ".into() },
        ],
    );
    assert_eq!(app.input.history, vec![" hello ".to_string()]);
}

#[test]
fn a_shell_command_runs_at_once() {
    let mut app = fresh_app();
    let effects = type_line(&mut app, "!ls -a");
    assert_eq!(effects.last(), Some(&Effect::RunShell("ls -a".into())));
    assert_eq!(infos(&app), vec!["! ls -a"]);
}

#[test]
fn control_b_hands_a_running_turn_off() {
    let mut app = fresh_app();
    let ctrl_b = KeyEvent::new(KeyCode::Char('b'), KeyModifiers::control());
    assert_eq!(press(&mut app, ctrl_b), vec![Effect::RefreshMenu]);
    app.running = Some(caliban::app::RunningTurn {
        activity: caliban::app::Activity::Streaming { since: NOW },
    });
    assert_eq!(
        press(&mut app, ctrl_b),
        vec![Effect::HandOff, Effect::CancelTurn, Effect::RefreshMenu]
    );
}

#[test]
fn editors_are_asked_for_by_key() {
    let mut app = fresh_app();
    app.input.set_buffer("draft".into());
    let ctrl_g = KeyEvent::new(KeyCode::Char('g'), KeyModifiers::control());
    assert_eq!(press(&mut app, ctrl_g), vec![Effect::EditPrompt("draft".into())]);
    app.view = ViewState::Overlay(Overlay::TranscriptViewer);
    assert_eq!(press(&mut app, key(KeyCode::Char('['))), vec![Effect::DumpTranscript]);
    assert_eq!(press(&mut app, key(KeyCode::Char('v'))), vec![Effect::OpenTranscript]);
}

#[test]
fn a_wider_search_reads_the_project_history() {
    let mut app = fresh_app();
    press(&mut app, KeyEvent::new(KeyCode::Char('r'), KeyModifiers::control()));
    let ctrl_s = KeyEvent::new(KeyCode::Char('s'), KeyModifiers::control());
    assert_eq!(
        press(&mut app, ctrl_s),
        vec![Effect::LoadHistory(HistorySource::ProjectFile("/h/input-history.txt".into()))],
    );
    history_loaded(&mut app, vec!["old prompt".into()]);
    press(&mut app, key(KeyCode::Enter));
    assert_eq!(app.input.buffer, "old prompt");
    assert!(matches!(app.view, ViewState::Main));
}

#[test]
fn late_esc_presses_are_no_pair() {
    let mut app = fresh_app();
    handle_key(key(KeyCode::Esc), &mut app, &rules(), NOW);
    handle_key(key(KeyCode::Esc), &mut app, &rules(), NOW + 501);
    assert!(matches!(app.view, ViewState::Main));
    handle_key(key(KeyCode::Esc), &mut app, &rules(), NOW + 1001);
    assert_eq!(app.view, ViewState::Overlay(Overlay::Rewind));
}

#[test]
fn queued_prompts_leave_in_order() {
    let mut app = fresh_app();
    app.running = Some(caliban::app::RunningTurn {
        activity: caliban::app::Activity::Streaming { since: NOW },
    });
    for line in ["one", "two", "three"] {
        assert!(type_line(&mut app, line).is_empty());
    }
    let mut out: Vec<String> = Vec::new();
    while let Some(p) = drain_one_queued(&mut app) {
        out.push(p);
    }
    assert_eq!(out, vec!["one", "two", "three"]);
}

#[test]
fn saving_a_session_is_reported() {
    let mut app = fresh_app();
    session_saved(&mut app, None);
    session_saved(&mut app, Some("disk full"));
    assert_eq!(infos(&app), vec!["session saved"]);
    assert_eq!(errors(&app), vec!["save failed: disk full"]);
}

#[test]
fn a_run_of_a_session_is_saved() {
    let mut app = fresh_app();
    app.session = Some(Session {
        name: "demo".into(),
        turn_count: 0,
        input_tokens: 0,
        output_tokens: 0,
        messages: Vec::new(),
        plan_mode: false,
        todos: Vec::new(),
    });
    let usage = Usage {
        input_tokens: 1,
        output_tokens: 2,
        cache_read_input_tokens: None,
        cache_creation_input_tokens: None,
    };
    let effects = handle_agent_event(
        &TurnEvent::RunEnd {
            final_messages: vec![Message::user_text("hi")],
            total_usage: usage,
            turn_count: 1,
            stopped_for: StopCondition::EndOfTurn,
        },
        &mut app,
        NOW,
    );
    let run = vec![Message::user_text("hi")];
    assert_eq!(
        effects,
        vec![
            Effect::MeasureContext(run),
            Effect::MergeRun { messages: vec![Message::user_text("hi")], usage },
            Effect::SaveSession,
        ],
    );
    run_merged(
        &mut app,
        MergedRun {
            turn_count: 1,
            input_tokens: 11,
            output_tokens: 12,
            messages: vec![Message::user_text("hi")],
            todos: vec!["write tests".into()],
        },
    );
    let session = app.session.as_ref().unwrap();
    assert_eq!(session.name, "demo");
    assert_eq!((session.turn_count, session.input_tokens, session.output_tokens), (1, 11, 12));
    assert_eq!(session.messages.len(), 1);
    assert_eq!(session.todos, vec!["write tests"]);
}

fn end_of_run(app: &mut App) -> Vec<Effect> {
    let usage = Usage {
        input_tokens: 1,
        output_tokens: 2,
        cache_read_input_tokens: None,
        cache_creation_input_tokens: None,
    };
    handle_agent_event(
        &TurnEvent::RunEnd {
            final_messages: Vec::new(),
            total_usage: usage,
            turn_count: 1,
            stopped_for: StopCondition::EndOfTurn,
        },
        app,
        NOW,
    )
}

#[test]
fn sessions_are_saved_only_where_they_may_be() {
    let session = || Session {
        name: "demo".into(),
        turn_count: 0,
        input_tokens: 0,
        output_tokens: 0,
        messages: Vec::new(),
        plan_mode: false,
        todos: Vec::new(),
    };
    for (kept, store, no_save) in [
        (true, true, false),
        (true, true, true),
        (true, false, false),
        (false, true, false),
    ] {
        let mut app = fresh_app();
        app.session = if kept { Some(session()) } else { None };
        app.session_store = store;
        app.no_save = no_save;
        app.plan_mode = true;
        let effects = end_of_run(&mut app);
        assert_eq!(effects.contains(&Effect::SaveSession), kept && store && !no_save);
        assert_eq!(effects.iter().any(|e| matches!(e, Effect::MergeRun { .. })), kept);
        assert!(!infos(&app).iter().any(|l| l.contains("saved")));
        assert_eq!(app.session.is_some_and(|s| s.plan_mode), kept);
    }
}

#[test]
fn rules_on_disk_are_reported() {
    let mut app = fresh_app();
    rule_saved(&mut app, "/p.toml", NOW);
    assert_eq!(notice(&app), "rule saved to /p.toml");
    app.permissions.cursor = 9;
    rule_deleted(&mut app, "/p.toml", "Bash", &DeleteRuleResult::Deleted, &rules(), NOW);
    assert_eq!(notice(&app), "removed rule from /p.toml: Bash");
    assert_eq!(app.permissions.cursor, 1);
    rule_deleted(&mut app, "/p.toml", "Bash", &DeleteRuleResult::NotFound, &rules(), NOW);
    assert_eq!(notice(&app), "no rule matching Bash in /p.toml");
    rule_deleted(
        &mut app,
        "/p.toml",
        "Bash",
        &DeleteRuleResult::Failed("denied".into()),
        &rules(),
        NOW,
    );
    assert_eq!(notice(&app), "delete failed: denied");
}

#[test]
fn d_on_a_file_rule_asks_for_its_deletion() {
    let mut app = fresh_app();
    let (took, effects) =
        handle_permissions_overlay_key(key(KeyCode::Char('d')), &mut app, &rules(), NOW);
    assert!(took);
    assert_eq!(
        effects,
        vec![Effect::DeleteRule {
            path: "/ws/.caliban/permissions.toml".into(),
            pattern: "Bash:make *".into(),
        }],
    );
}

#[test]
fn d_strikes_the_rule_that_is_shown() {
    // The first session rule mirrors a rule of a file and is not shown, so
    // the cursor's first row is the second session rule.
    let mut app = fresh_app();
    for pattern in ["Bash:make *", "Edit"] {
        app.runtime_rules.push(RuntimeRule { pattern: pattern.into(), action: Action::Allow });
    }
    app.permissions.cursor = 0;
    handle_permissions_overlay_key(key(KeyCode::Char('d')), &mut app, &rules(), NOW);
    let left: Vec<&str> = app.runtime_rules.iter().map(|r| r.pattern.as_str()).collect();
    assert_eq!(left, vec!["Bash:make *"]);
}

#[test]
fn requests_wait_behind_the_open_one() {
    let mut app = fresh_app();
    let req =
        |id| AskRequest::new(id, "Bash", parse_tool_input(r#"{"command":"ls"}"#).unwrap(), None);
    request_arrived(&mut app, req(1));
    request_arrived(&mut app, req(2));
    assert_eq!(app.ask_modal.as_ref().unwrap().id, 1);
    assert_eq!(app.ask_queue.len(), 1);
    assert_eq!(app.view, ViewState::Overlay(Overlay::AskModal));
}

#[test]
fn the_test_pane_reads_its_input_as_json() {
    let mut app = fresh_app();
    app.permissions.tab = PermissionsTab::Edit;
    press_overlay(&mut app, key(KeyCode::Char('t')));
    let pane = app.permissions_test.as_mut().unwrap();
    pane.input_json = "not json".into();
    assert!(matches!(permissions_test_input(pane), ToolInput::Object(f) if f.is_empty()));
    pane.input_json = r#"{"command":"ls"}"#.into();
    assert!(matches!(
        permissions_test_input(pane),
        ToolInput::Object(f) if f.len() == 1 && f[0].key == "command"
    ));
    app.runtime_rules.push(RuntimeRule { pattern: "Edit".into(), action: Action::Deny });
    let tried = permissions_test_rules(&app, &rules().defaults);
    let patterns: Vec<&str> = tried.iter().map(|r| r.pattern.as_str()).collect();
    assert_eq!(patterns, vec!["Edit", "Read"]);
    run_permissions_test(&mut app, &None);
    assert_eq!(
        app.permissions_test.as_ref().unwrap().last_outcome.as_deref(),
        Some("no match \u{2014} would fall through to default Ask"),
    );
}

fn press_overlay(app: &mut App, k: KeyEvent) {
    handle_permissions_overlay_key(k, app, &rules(), NOW);
}

#[test]
fn rewinding_restores_what_was_asked_for() {
    let req = |action| RewindRequest { prompt_index: 3, action };
    assert_eq!(plan_rewind(req(RewindAction::Code), false, true), RewindPlan::NoCheckpoints);
    assert_eq!(plan_rewind(req(RewindAction::Code), true, false), RewindPlan::Files);
    assert_eq!(plan_rewind(req(RewindAction::Fork), true, false), RewindPlan::NoSessions);
    assert_eq!(plan_rewind(req(RewindAction::Fork), true, true), RewindPlan::Fork);
    assert_eq!(
        plan_rewind(req(RewindAction::Both), true, true),
        RewindPlan::Restore {
            files: true,
            conversation: ConversationRestore::TruncateAtPrompt,
        },
    );
    assert_eq!(
        plan_rewind(req(RewindAction::SummarizeBackward), true, true),
        RewindPlan::Restore {
            files: false,
            conversation: ConversationRestore::SummarizeUpToHere,
        },
    );
}

#[test]
fn rewinding_is_reported() {
    let req = RewindRequest { prompt_index: 3, action: RewindAction::Code };
    let said = |plan, result: RewindResult| report_rewind(req, plan, &result, NOW).text;
    assert_eq!(
        said(RewindPlan::NoCheckpoints, RewindResult::Refused),
        "checkpointing is not enabled for this session",
    );
    assert_eq!(
        said(RewindPlan::NoSessions, RewindResult::Refused),
        "forking needs session persistence \u{2014} start caliban with --session",
    );
    assert_eq!(
        said(
            RewindPlan::Files,
            RewindResult::FilesRestored { restored: 2, deleted: 1, skipped: 0 },
        ),
        "rewound #3: 2 file(s) restored, 1 deleted, 0 skipped",
    );
    assert_eq!(
        said(RewindPlan::Fork, RewindResult::ForkNotSaved("disk".into())),
        "fork #3 save failed: disk",
    );
    assert_eq!(said(RewindPlan::Fork, RewindResult::Failed("x".into())), "fork #3 failed: x");
    assert_eq!(said(RewindPlan::Files, RewindResult::Failed("x".into())), "rewind #3 failed: x");
}

#[test]
fn reports_of_commands_read_as_lists() {
    assert_eq!(
        skills_report(&vec![Skill { name: "a".into(), description: "first\nsecond".into() }]),
        vec!["1 skill(s) loaded:", "  a \u{2014} first"],
    );
    assert!(skills_report(&Vec::new())[0].starts_with("no skills loaded"));
    let styles = output_style_lines(
        "plain",
        "STYLE",
        &vec![OutputStyle {
            name: "plain".into(),
            description: "as is".into(),
            force_for_plugin: false,
        }],
    );
    assert!(styles[0].starts_with("active output style: plain (set via STYLE env var"));
    assert_eq!(styles[1], "1 style(s) available:");
    assert_eq!(
        doctor_lines(&vec![Check { glyph: "ok".into(), name: "git".into(), hint: "found".into() }]),
        vec!["doctor \u{2014} 1 check(s):", "  ok git \u{2014} found"],
    );
    assert!(status_line("ollama").starts_with("provider: ollama ("));
    assert!(no_clipboard_message().contains("clipboard"));
    assert_eq!(
        think_report(ThinkingSetting::Off),
        format!("thinking: {}", describe(ThinkingSetting::Off)),
    );
}

#[test]
fn memory_topics_come_and_go() {
    let mut app = fresh_app();
    memory_loaded(&mut app, &Err("no dir".into()));
    topic_edit_checked(&mut app, &TopicFile::BadSlug("a/b".into()), "vi");
    topic_read(&mut app, &Err("gone".into()));
    topic_deleted(&mut app, "x", Some("busy"));
    assert_eq!(
        errors(&app),
        vec!["memory load failed: no dir", "bad slug: a/b", "show failed: gone", "delete failed: busy"],
    );
    let mut app = fresh_app();
    memory_loaded(
        &mut app,
        &Ok(MemorySummary {
            estimated_tokens: 5,
            max_tokens: 10,
            lines: vec!["  user: 5".into()],
            truncated: false,
        }),
    );
    assert_eq!(infos(&app)[0], "memory tiers (5 tokens / 10 budget):");
    topics_listed(&mut app, &Ok(Vec::new()), "/mem");
    assert_eq!(*infos(&app).last().unwrap(), "no topic files yet");
    topic_read(
        &mut app,
        &Ok(Topic {
            name: "t".into(),
            kind: "project".into(),
            description: "d".into(),
            body: "one\ntwo".into(),
        }),
    );
    assert_eq!(*infos(&app).last().unwrap(), "two");
    let present = || TopicFile::Present { path: "/mem/t.md".into() };
    assert!(topic_delete_checked(&mut app, "t", false, &present()).is_empty());
    assert_eq!(*infos(&app).last().unwrap(), "re-run with: /memory delete t --force");
    assert_eq!(
        topic_delete_checked(&mut app, "t", true, &present()),
        vec![Effect::DeleteTopic("t".into())],
    );
    topic_deleted(&mut app, "t", None);
    assert_eq!(*infos(&app).last().unwrap(), "deleted topic 't'");
}

#[test]
fn usage_and_context_add_the_session_and_the_blocks() {
    let mut app = fresh_app();
    let cost = CostBreakdown {
        total: Usd { mantissa: 0, scale: 0 },
        total_rounded: "0.0000".into(),
        cache_savings: Usd { mantissa: 1, scale: 0 },
        cache_savings_rounded: "1.0000".into(),
        by_model: Vec::new(),
    };
    let plain = render_usage_lines(&app, &cost);
    assert!(plain.iter().any(|l| l == "  cache savings vs no-cache: $1.0000"));
    app.session = Some(Session {
        name: "demo".into(),
        turn_count: 2,
        input_tokens: 3,
        output_tokens: 4,
        messages: Vec::new(),
        plan_mode: false,
        todos: Vec::new(),
    });
    assert_eq!(render_usage_lines(&app, &cost).len(), plain.len() + 1);
    let lines = render_context_lines(
        &ContextUsage {
            capacity: 1000,
            used: 10,
            utilization_bp: 100,
            bins: vec![ContextBin { label: "user".into(), tokens: 10 }],
        },
        &Some(ActiveSchemas { limit: 4, names: vec!["Bash".into()] }),
        &vec![Message::user_text("hello there")],
    );
    assert!(lines.iter().any(|l| l.contains("1000-token window")));
    assert!(lines.iter().any(|l| l.contains("Bash")));
}

#[test]
fn exports_are_written_or_refused() {
    let messages = vec![Message::user_text("hi")];
    let (outcome, effects) = run_export(&messages, "out.json --format json", "m", "d", "{}");
    assert!(matches!(outcome, SlashOutcome::Continue));
    assert_eq!(effects, vec![Effect::WriteFile { path: "out.json".into(), body: "{}".into() }]);
    let (outcome, effects) = run_export(&messages, "-", "m", "d", "{}");
    assert!(matches!(outcome, SlashOutcome::StatusMessage(s) if s == no_clipboard_message()));
    assert!(effects.is_empty());
}

#[test]
fn inputs_show_by_their_fields() {
    let parsed = Some(ToolInput::Object(vec![
        Field { key: "path".into(), value: FieldValue::Text("x".repeat(50)) },
        Field { key: "n".into(), value: FieldValue::Other("4".into()) },
    ]));
    assert_eq!(
        format_parsed_input("ignored", &parsed, 80),
        format!("path=\"{}\u{2026}\", n=4", "x".repeat(40)),
    );
    assert_eq!(format_parsed_input("as typed", &None, 4), "as t\u{2026}");
    assert_eq!(
        format_parsed_input("[1]", &Some(ToolInput::Other("[1]".into())), 80),
        "[1]",
    );
}

#[test]
fn the_status_command_gets_the_state() {
    let app = fresh_app();
    let told = app.statusline_context("m", "0.1", Effort::High);
    assert_eq!(told.model, "m");
    assert_eq!(told.cost_usd, "0.1");
    assert_eq!(told.effort, "high");
    assert_eq!(told.workspace_root, "/ws");
    assert_eq!(told.turn_count, 0);
}

#[test]
fn versions_leave_out_what_is_not_known() {
    assert_eq!(long_version("1.0.0", Some("abc"), None, None), "1.0.0 (abc)");
    assert_eq!(long_version("1.0.0", None, None, Some("2026-01-01")), "1.0.0");
}

#[test]
fn copies_of_lines_say_the_same() {
    let lines = vec![Line::raw("a"), Line::blank()];
    let copy = clone_lines(&lines);
    assert_eq!(copy.len(), 2);
    assert_eq!(copy[0].text(), "a");
}
