use caliban::app::{Activity, App, Startup, TranscriptLine};
use caliban::effect::Effect;
use caliban::overlay::{Overlay, ViewState};
use caliban::replies::{
    attach_failed, dispatch_shell_escape, handle_ctrl_g, handoff_to_supervisor, prompt_judged,
    screen_not_left, screen_resumed, start_turn, AttachError, Attachment, EditorOutcome,
    PromptVerdict,
};
use caliban::shell_escape::{
    shell_after_hook, shell_after_tool, shell_call_id, HookVerdict, ShellEscapeOutcome, ToolReply,
};
use caliban::toast::ToastLevel;
use caliban::types::{ContentBlock, Message, PermissionMode, Role};

const NOW: u64 = 1_000_000;

fn fresh_app() -> App {
    App::new(
        Startup {
            session: None,
            session_store: true,
            no_save: false,
            cwd: "/ws".into(),
            system_prompt: None,
            plan_mode: false,
            permission_mode: PermissionMode::Default,
            bypass_latch: false,
            saved_history: Vec::new(),
            input_history_path: None,
            projects_root: None,
            esc_window_ms: 500,
        },
        NOW,
    )
}

fn notice(app: &App) -> &str {
    app.toast.as_ref().expect("a notice").text.as_str()
}

fn infos(app: &App) -> Vec<&str> {
    app.transcript
        .iter()
        .filter_map(|l| match l {
            TranscriptLine::Info(s) => Some(s.as_str()),
            _ => None,
        })
        .collect()
}

#[test]
fn an_edited_prompt_replaces_the_old_one() {
    let mut app = fresh_app();
    handle_ctrl_g(&mut app, &None, EditorOutcome::Saved("new text".into()), NOW);
    assert_eq!(app.input.buffer, "new text");
    assert_eq!(app.input.cursor, 8);
    assert!(app.toast.is_none());
}

#[test]
fn an_editor_that_fails_leaves_the_prompt() {
    let mut app = fresh_app();
    app.input.set_buffer("draft".into());
    handle_ctrl_g(&mut app, &None, EditorOutcome::NonZero, NOW);
    assert_eq!(app.input.buffer, "draft");
    assert_eq!(notice(&app), "editor exited non-zero; buffer unchanged");
    assert!(matches!(app.toast.as_ref().unwrap().level, ToastLevel::Warn));
    handle_ctrl_g(&mut app, &Some("tty".into()), EditorOutcome::Failed("no vi".into()), NOW);
    assert_eq!(notice(&app), "editor failed: no vi");
    screen_resumed(&mut app, &Some("tty".into()), NOW);
    assert_eq!(notice(&app), "editor resume failed: tty");
    screen_not_left(&mut app, "tty", NOW);
    assert_eq!(notice(&app), "editor suspend failed: tty");
}

#[test]
fn handing_off_is_noted() {
    let mut app = fresh_app();
    handoff_to_supervisor(&mut app, &Some("a1".into()));
    handoff_to_supervisor(&mut app, &None);
    assert_eq!(
        infos(&app),
        vec![
            "[backgrounded sub-agent a1 \u{2014} see `caliban agents list`]",
            "[backgrounded \u{2014} supervisor daemon offline; see `caliban daemon status`]",
        ],
    );
}

#[test]
fn allow_runs_command_and_captures_output() {
    assert!(shell_after_hook("ls", &HookVerdict::Allow).is_none());
    let outcome = shell_after_tool(
        "ls",
        &ToolReply::Blocks(vec![ContentBlock::Text("hello world".into())]),
    );
    assert!(!outcome.is_error);
    assert!(!outcome.denied);
    assert_eq!(outcome.output, "hello world");
    let mut app = fresh_app();
    dispatch_shell_escape(&mut app, &outcome);
    assert_eq!(infos(&app), vec!["hello world"]);
}

#[test]
fn deny_rule_short_circuits() {
    let outcome = shell_after_hook("rm -rf /", &HookVerdict::Deny("no".into())).unwrap();
    assert!(outcome.denied);
    assert!(outcome.is_error);
    let mut app = fresh_app();
    dispatch_shell_escape(&mut app, &outcome);
    assert!(matches!(app.transcript.last(), Some(TranscriptLine::Error(s)) if s == "[denied: no]"));
}

#[test]
fn ask_with_auto_allow_runs_command() {
    let outcome = shell_after_tool("ls", &ToolReply::Blocks(Vec::new()));
    assert!(!outcome.denied);
    assert!(!outcome.is_error);
}

#[test]
fn missing_bash_tool_is_reported_as_error() {
    let outcome = shell_after_tool("ls", &ToolReply::Missing);
    assert!(outcome.is_error);
    assert!(outcome.message.as_deref().unwrap_or("").contains("Bash"));
}

#[test]
fn shell_failures_without_a_message_say_so() {
    let mut app = fresh_app();
    let failed = |denied| ShellEscapeOutcome {
        command: "ls".to_string(),
        output: String::new(),
        is_error: true,
        denied,
        message: None,
    };
    dispatch_shell_escape(&mut app, &failed(false));
    dispatch_shell_escape(&mut app, &failed(true));
    let errors: Vec<&str> = app
        .transcript
        .iter()
        .filter_map(|l| match l {
            TranscriptLine::Error(s) => Some(s.as_str()),
            _ => None,
        })
        .collect();
    assert_eq!(errors, vec!["shell escape failed", "[denied: permission denied]"]);
}

#[test]
fn output_comes_line_by_line() {
    let mut app = fresh_app();
    let outcome = shell_after_tool(
        "ls",
        &ToolReply::Blocks(vec![ContentBlock::Text("a\nb\n".into())]),
    );
    dispatch_shell_escape(&mut app, &outcome);
    assert_eq!(infos(&app), outcome.output.split('\n').collect::<Vec<_>>());
}

#[test]
fn shell_calls_differ_by_command() {
    assert_eq!(shell_call_id("ls"), shell_call_id("ls"));
    assert_ne!(shell_call_id("ls"), shell_call_id("ls -a"));
}

#[test]
fn denied_prompts_go_back_to_the_input_line() {
    let mut app = fresh_app();
    let effects = prompt_judged(
        &mut app,
        "do it".into(),
        "  do it ".into(),
        PromptVerdict::Deny("policy".into()),
        NOW,
    );
    assert!(effects.is_empty());
    assert_eq!(app.input.buffer, "  do it ");
    assert_eq!(notice(&app), "prompt rejected by hook: policy");
}

#[test]
fn allowed_prompts_look_for_their_files() {
    let mut app = fresh_app();
    let wanted = |prompt: &str| {
        vec![Effect::ResolveAttachments { line: "line".into(), prompt: prompt.into() }]
    };
    let allow = prompt_judged(&mut app, "p".into(), "line".into(), PromptVerdict::Allow, NOW);
    assert_eq!(allow, wanted("p"));
    let kept =
        prompt_judged(&mut app, "p".into(), "line".into(), PromptVerdict::Updated(None), NOW);
    assert_eq!(kept, wanted("p"));
    let changed = prompt_judged(
        &mut app,
        "p".into(),
        "line".into(),
        PromptVerdict::Updated(Some("q".into())),
        NOW,
    );
    assert_eq!(changed, wanted("q"));
}

#[test]
fn hooks_can_turn_a_prompt_into_a_command() {
    let mut app = fresh_app();
    let effects = prompt_judged(
        &mut app,
        "help me".into(),
        "help me".into(),
        PromptVerdict::Updated(Some("/help".into())),
        NOW,
    );
    assert!(effects.is_empty());
    assert_eq!(app.view, ViewState::Overlay(Overlay::SlashHelp));
}

#[test]
fn each_attachment_error_has_its_hint() {
    for (kind, hint) in [
        (AttachError::Oversize, "Drop the @ or raise --max-attach-bytes."),
        (AttachError::BudgetExceeded, "Remove an attachment or raise --attach-budget-bytes."),
        (AttachError::NotUtf8, "Binary files can't be inlined; ask me to Read it instead."),
        (AttachError::Io, "Check the path and try again."),
    ] {
        let mut app = fresh_app();
        attach_failed(&mut app, "see @x".into(), kind, "x is bad", NOW);
        assert_eq!(notice(&app), format!("x is bad \u{2014} {hint}"));
        assert_eq!(app.input.buffer, "see @x");
    }
}

#[test]
fn a_turn_sends_the_conversation_with_the_prompt_last() {
    let mut app = fresh_app();
    app.messages = vec![Message::system_text("old"), Message::user_text("hi")];
    let files = vec![Attachment { display_path: "doc.md".into(), bytes: 3 }];
    let sent = start_turn(
        &mut app,
        "look".into(),
        "look\n<file>abc</file>",
        &files,
        &Some("new".into()),
        NOW,
    );
    assert_eq!(sent.len(), 3);
    assert!(sent[0].role == Role::System);
    assert!(matches!(&sent[0].content[0], ContentBlock::Text(t) if t == "new"));
    assert!(matches!(&sent[2].content[0], ContentBlock::Text(t) if t.contains("<file>")));
    assert!(matches!(&app.transcript[0], TranscriptLine::UserPrompt(s) if s == "look"));
    assert!(matches!(&app.transcript[1], TranscriptLine::Attached { bytes: 3, .. }));
    assert!(matches!(
        app.running.as_ref().unwrap().activity,
        Activity::WaitingForModel { since: NOW }
    ));
    // Without a system message in front, one is put there.
    app.messages = vec![Message::user_text("hi")];
    let sent = start_turn(&mut app, "p".into(), "p", &Vec::new(), &Some("s".into()), NOW);
    assert_eq!(sent.len(), 3);
    assert!(sent[0].role == Role::System);
}
