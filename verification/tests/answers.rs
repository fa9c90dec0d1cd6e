use caliban::app::{App, Session, Startup, TranscriptLine};
use caliban::effect::Effect;
use caliban::rewind::{
    execute_rewind, fork_session_name, plan_rewind, ConversationRestore, RewindAction, RewindPlan,
    RewindRequest, RewindResult,
};
use caliban::slash::answers::{
    command_answered, export_conversation, export_written, model_swapped, Gathered,
};
use caliban::slash::config::HookEvent;
use caliban::slash::cost::{CostBreakdown, Usd};
use caliban::slash::existing::{OutputStyle, Skill};
use caliban::slash::model::KnownModel;
use caliban::slash::observe::{compact_finished, Check, Compaction, ContextUsage};
use caliban::slash::ThinkingSetting;
use caliban::types::{Message, PermissionMode};

const NOW: u64 = 1_000_000;

fn fresh_app(session: Option<Session>) -> App {
    App::new(
        Startup {
            session,
            session_store: true,
            no_save: false,
            cwd: "/ws".into(),
            system_prompt: None,
            plan_mode: false,
            permission_mode: PermissionMode::Default,
            bypass_latch: false,
            saved_history: Vec::new(),
            input_history_path: None,
            projects_root: None,
            esc_window_ms: 500,
        },
        NOW,
    )
}

fn kept_session() -> Session {
    Session {
        name: "work".into(),
        turn_count: 2,
        input_tokens: 10,
        output_tokens: 5,
        messages: vec![Message::user_text("one"), Message::user_text("two")],
        plan_mode: false,
        todos: Vec::new(),
    }
}

fn no_cost() -> CostBreakdown {
    CostBreakdown {
        total: Usd { mantissa: 123_456, scale: 5 },
        total_rounded: "1.2346".into(),
        cache_savings: Usd { mantissa: 0, scale: 0 },
        cache_savings_rounded: "0.0000".into(),
        by_model: Vec::new(),
    }
}

/// The lines that an answer adds, and whether they are errors.
fn added(g: &Gathered) -> (Vec<String>, bool) {
    let mut app = fresh_app(None);
    let before = app.transcript.len();
    command_answered(&mut app, g);
    let mut failed = false;
    let lines = app.transcript[before..]
        .iter()
        .map(|l| match l {
            TranscriptLine::Info(t) => t.clone(),
            TranscriptLine::Error(t) => {
                failed = true;
                t.clone()
            }
            _ => panic!("another kind of line"),
        })
        .collect();
    (lines, failed)
}

#[test]
fn a_restored_conversation_is_gone_on_with() {
    let mut app = fresh_app(Some(kept_session()));
    app.messages = vec![Message::user_text("one"), Message::user_text("two")];
    let req = RewindRequest { prompt_index: 1, action: RewindAction::Both };
    let plan = plan_rewind(req, true, true);
    let result = RewindResult::Restored { messages: 1, files: 4 };
    let left = vec![Message::user_text("one")];
    let effects = execute_rewind(&mut app, req, plan, &result, &left, NOW);
    assert_eq!(effects, vec![Effect::MeasureContext(vec![Message::user_text("one")])]);
    assert_eq!(app.messages.len(), 1);
    assert_eq!(app.session.as_ref().unwrap().messages.len(), 1);
    assert_eq!(
        app.toast.as_ref().unwrap().text,
        "rewound #1: 1 message(s), 4 file(s) restored",
    );
}

#[test]
fn restoring_files_and_forking_keep_the_conversation() {
    for action in [RewindAction::Code, RewindAction::Fork] {
        let mut app = fresh_app(None);
        app.messages = vec![Message::user_text("one")];
        let req = RewindRequest { prompt_index: 7, action };
        let plan = plan_rewind(req, true, true);
        let result = RewindResult::Restored { messages: 0, files: 0 };
        assert!(execute_rewind(&mut app, req, plan, &result, &Vec::new(), NOW).is_empty());
        assert_eq!(app.messages.len(), 1);
        assert!(app.toast.is_some());
    }
}

#[test]
fn without_checkpoints_nothing_is_rewound() {
    let mut app = fresh_app(None);
    app.messages = vec![Message::user_text("one")];
    let req = RewindRequest { prompt_index: 0, action: RewindAction::Conversation };
    let plan = plan_rewind(req, false, true);
    assert_eq!(plan, RewindPlan::NoCheckpoints);
    let effects =
        execute_rewind(&mut app, req, plan, &RewindResult::Refused, &Vec::new(), NOW);
    assert!(effects.is_empty());
    assert_eq!(app.messages.len(), 1);
    assert_eq!(
        app.toast.as_ref().unwrap().text,
        "checkpointing is not enabled for this session",
    );
}

#[test]
fn a_failed_restore_keeps_the_conversation() {
    let mut app = fresh_app(None);
    app.messages = vec![Message::user_text("one")];
    let req = RewindRequest { prompt_index: 2, action: RewindAction::SummarizeForward };
    let plan = plan_rewind(req, true, false);
    assert_eq!(
        plan,
        RewindPlan::Restore { files: false, conversation: ConversationRestore::SummarizeFromHere },
    );
    let result = RewindResult::Failed("gone".into());
    assert!(execute_rewind(&mut app, req, plan, &result, &Vec::new(), NOW).is_empty());
    assert_eq!(app.messages.len(), 1);
    assert_eq!(app.toast.as_ref().unwrap().text, "rewind #2 failed: gone");
}

#[test]
fn forks_are_named_after_the_session() {
    assert_eq!(
        fork_session_name(&fresh_app(Some(kept_session())), 3, "0123456789abcdef"),
        "work-fork3-01234567",
    );
    assert_eq!(
        fork_session_name(&fresh_app(None), 3, "0123456789abcdef"),
        "session-fork3-01234567",
    );
}

#[test]
fn a_compaction_has_the_context_measured() {
    let mut app = fresh_app(Some(kept_session()));
    app.messages = vec![Message::user_text("one"), Message::user_text("two")];
    assert!(compact_finished(&mut app, &Compaction::Unchanged, "summarize", 9).is_empty());
    let c = Compaction::Compacted { messages: vec![Message::user_text("s")], tokens: 1 };
    assert_eq!(
        compact_finished(&mut app, &c, "summarize", 9),
        vec![Effect::MeasureContext(vec![Message::user_text("s")])],
    );
    assert_eq!(app.session.as_ref().unwrap().messages.len(), 1);
}

#[test]
fn commands_answer_with_what_was_gathered() {
    let hooks = Gathered::Hooks {
        total: 2,
        events: vec![HookEvent { event: "stop".into(), handlers: 2 }],
        disabled: true,
    };
    assert_eq!(
        added(&hooks).0,
        vec![
            "2 hook handler(s) loaded across 1 event(s):",
            "  stop \u{2192} 2 handler(s)",
            "kill switch active (disable_all_hooks = true)",
        ],
    );
    assert_eq!(
        added(&Gathered::Plugins(Ok(vec!["a".into(), "b".into()]))),
        (vec!["a".to_string(), "b".to_string()], false),
    );
    assert_eq!(
        added(&Gathered::Plugins(Err("denied".into()))),
        (vec!["/plugins: denied".to_string()], true),
    );
    assert_eq!(
        added(&Gathered::Cost(no_cost())).0[0],
        "cost \u{2014} total: $1.2345  cache savings: $0.0000",
    );
    assert!(!added(&Gathered::Usage(no_cost())).0.is_empty());
    let usage =
        ContextUsage { capacity: 1000, used: 100, utilization_bp: 1000, bins: Vec::new() };
    assert!(!added(&Gathered::Context { usage, schemas: None }).0.is_empty());
    let checks = vec![Check { glyph: "ok".into(), name: "git".into(), hint: "found".into() }];
    assert_eq!(
        added(&Gathered::Doctor(checks)).0,
        vec!["doctor \u{2014} 1 check(s):", "  ok git \u{2014} found"],
    );
    let models = Gathered::Models {
        active: "m".into(),
        provider: "p".into(),
        models: vec![KnownModel { id: "m".into(), max_input_tokens: 5 }],
    };
    assert_eq!(added(&models).0[2], "  * m \u{2014} 5 ctx");
    assert!(added(&Gathered::Status { provider: "p".into() }).0[0].starts_with("provider: p ("));
    assert_eq!(added(&Gathered::Thinking(ThinkingSetting::Off)).0.len(), 1);
    let planned = Gathered::Loop { args: "--n=9".into(), max_turns: 5 };
    assert!(added(&planned).0[0].contains("bounded to 5 by --max-turns=5"));
    assert!(added(&Gathered::Statusline(None)).0[0].contains("unset"));
    let skills = vec![Skill { name: "s".into(), description: "d".into() }];
    assert_eq!(
        added(&Gathered::Skills(skills)).0,
        vec!["1 skill(s) loaded:", "  s \u{2014} d"],
    );
    let styles = Gathered::Styles {
        active: "plain".into(),
        variable: "STYLE".into(),
        styles: vec![OutputStyle {
            name: "plain".into(),
            description: "as is".into(),
            force_for_plugin: false,
        }],
    };
    assert_eq!(added(&styles).0[2], "  * plain \u{2014} as is");
}

#[test]
fn status_messages_are_kept() {
    let mut app = fresh_app(None);
    command_answered(&mut app, &Gathered::Loop { args: String::new(), max_turns: 5 });
    assert_eq!(app.last_status_message, None);
    command_answered(&mut app, &Gathered::Statusline(None));
    assert!(app.last_status_message.as_ref().unwrap().contains("unset"));
    model_swapped(&mut app, " m2 ", None);
    assert_eq!(app.last_status_message.as_deref(), Some("model \u{2192} m2"));
    model_swapped(&mut app, "m3", Some("unknown"));
    assert_eq!(app.last_status_message.as_deref(), Some("/model: unknown"));
}

#[test]
fn exporting_asks_for_a_file_and_says_how_it_went() {
    let mut app = fresh_app(None);
    app.messages = vec![Message::user_text("hi")];
    let effects = export_conversation(&mut app, "out.md", "mock", "2026-07-03", "{}");
    assert!(matches!(
        &effects[..],
        [Effect::WriteFile { path, body }] if path == "out.md" && body.contains("hi")
    ));
    assert_eq!(app.last_status_message, None);
    export_written(&mut app, "out.md", None);
    assert_eq!(app.last_status_message.as_deref(), Some("exported to out.md"));
    export_written(&mut app, "out.md", Some("disk full"));
    assert_eq!(app.last_status_message.as_deref(), Some("/export: disk full"));
    assert!(export_conversation(&mut app, "-", "mock", "2026-07-03", "{}").is_empty());
    assert!(app.last_status_message.as_ref().unwrap().starts_with("/export: clipboard"));
}
