use caliban::app::{
    App, DisplayedRule, RuleOrigin, RuleSources, Session, Startup,
};
use caliban::types::{Action, DefaultRule, FileRule, Message, PermissionMode, RuntimeRule, Scope};

const NOW: u64 = 1_000_000;

fn fresh_app() -> App {
    App::new(
        Startup {
            session: None,
            session_store: true,
            no_save: false,
            cwd: "/ws".into(),
            system_prompt: None,
            plan_mode: false,
            permission_mode: PermissionMode::Default,
            bypass_latch: false,
            saved_history: Vec::new(),
            input_history_path: None,
            projects_root: None,
            esc_window_ms: 500,
        },
        NOW,
    )
}

#[test]
fn app_initializes_queued_empty_and_esc_unarmed() {
    let app = fresh_app();
    assert!(app.queued.is_empty());
    assert!(app.esc_armed_at.is_none());
}

#[test]
fn displayed_rules_dedups_session_mirror_of_persisted_rule() {
    let mut app = fresh_app();
    // A rule of the project's file that the session holds too.
    let rules = RuleSources {
        file: vec![FileRule {
            pattern: "Bash:ls -F".into(),
            action: Action::Allow,
            comment: None,
            scope: Scope::Project,
            path: Some("/ws/.caliban/permissions.toml".into()),
            index_in_scope: 0,
        }],
        defaults: vec![DefaultRule { pattern: "Read".into(), action: Action::Allow, comment: None }],
    };
    app.runtime_rules.push(RuntimeRule { pattern: "Bash:ls -F".into(), action: Action::Allow });

    let shown: Vec<DisplayedRule> = app.displayed_rules(&rules);
    let session_hits = shown
        .iter()
        .filter(|r| r.pattern == "Bash:ls -F" && matches!(r.origin, RuleOrigin::Session))
        .count();
    assert_eq!(
        session_hits, 0,
        "session mirror of a persisted rule must be hidden in favor of its File origin; got {shown:?}"
    );
    let file_hits = shown
        .iter()
        .filter(|r| r.pattern == "Bash:ls -F" && matches!(r.origin, RuleOrigin::File { .. }))
        .count();
    assert!(file_hits >= 1, "the persisted File rule must still be shown; got {shown:?}");
    assert_eq!(shown.len(), 2);
}

#[test]
fn a_session_rule_with_another_action_stays_on_display() {
    let mut app = fresh_app();
    let rules = RuleSources {
        file: vec![FileRule {
            pattern: "Bash".into(),
            action: Action::Deny,
            comment: None,
            scope: Scope::User,
            path: Some("/home/op/.config/caliban/permissions.toml".into()),
            index_in_scope: 0,
        }],
        defaults: Vec::new(),
    };
    app.runtime_rules.push(RuntimeRule { pattern: "Bash".into(), action: Action::Allow });
    assert_eq!(app.displayed_rules(&rules).len(), 2);
}

#[test]
fn a_resumed_session_brings_its_prompts() {
    let app = App::new(
        Startup {
            session: Some(Session {
                name: "demo".into(),
                turn_count: 1,
                input_tokens: 10,
                output_tokens: 5,
                messages: vec![Message::user_text("asked"), Message::assistant_text("told")],
                plan_mode: false,
                todos: Vec::new(),
            }),
            session_store: true,
            no_save: false,
            cwd: "/ws".into(),
            system_prompt: None,
            plan_mode: false,
            permission_mode: PermissionMode::Default,
            bypass_latch: false,
            saved_history: vec!["earlier".into()],
            input_history_path: None,
            projects_root: None,
            esc_window_ms: 500,
        },
        NOW,
    );
    assert_eq!(app.input.history, vec!["earlier".to_string(), "asked".to_string()]);
    assert_eq!(app.messages.len(), 2);
    assert_eq!(app.cwd_display(Some("dev/ws")), "~/dev/ws");
    assert_eq!(app.cwd_display(Some("")), "~");
    assert_eq!(app.cwd_display(None), "/ws");
}
