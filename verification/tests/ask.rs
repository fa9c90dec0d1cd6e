use caliban::ask::{
    ask_decision, derive_suggestions, input_summary, AlwaysSubprompt, AskEnd,
    AskRequest, HookDecision,
};
use caliban::json::parse_tool_input;
use caliban::types::{Action, AskResponse, FieldValue, Scope, ToolInput};

fn input(json: &str) -> ToolInput {
    parse_tool_input(json).expect("valid JSON")
}

/// The path of a call to a file tool, as the matcher of rules reads it.
fn path_in(input: &ToolInput) -> Option<String> {
    let ToolInput::Object(fields) = input else {
        return None;
    };
    fields.iter().find(|f| f.key == "path").and_then(|f| match &f.value {
        FieldValue::Text(t) => Some(t.clone()),
        FieldValue::Other(_) => None,
    })
}

#[test]
fn summary_prefers_command_for_bash() {
    let v = input(r#"{"command": "git status", "cwd": "/tmp"}"#);
    assert!(input_summary(&v).starts_with("command=git status"));
}

#[test]
fn summary_handles_long_strings() {
    let long = "a".repeat(500);
    let v = input(&format!("{{\"command\":\"{long}\"}}"));
    assert!(input_summary(&v).len() < 250);
}

#[test]
fn input_summary_collapses_newlines_to_single_line() {
    let v = input(r#"{"command": "echo one\nrm -rf two\nthree"}"#);
    let s = input_summary(&v);
    assert!(
        !s.contains('\n'),
        "input summary must be single-line (newlines collapsed); got: {s:?}"
    );
}

#[test]
fn derive_suggestions_bash_orders_broadest_to_narrowest() {
    let i = input(r#"{"command": "cargo test --all"}"#);
    let s = derive_suggestions("Bash", &i, &path_in(&i));
    assert_eq!(s[0], "Bash:cargo *");
    assert_eq!(s[1], "Bash:cargo test*");
    assert_eq!(s.last().unwrap(), "Bash:cargo test --all");
}

#[test]
fn derive_suggestions_edit_emits_dir_globs_and_exact() {
    // Input shape must match the real Edit schema (`path`), not the
    // historical wrong key (`file_path`).
    let i = input(r#"{"path": "/repo/src/foo.rs"}"#);
    let s = derive_suggestions("Edit", &i, &path_in(&i));
    assert!(s.iter().any(|x| x == "Edit:/repo/src/**"));
    assert!(s.iter().any(|x| x == "Edit:/repo/src/*"));
    assert!(s.last().unwrap().ends_with("foo.rs"));
}

#[test]
fn derive_suggestions_multi_edit_emits_dir_globs_and_exact() {
    // Regression: prior to the schema-key fix, MultiEdit (and
    // NotebookEdit) produced `MultiEdit:` — empty args — which
    // could never match and accumulated as duplicate rules in
    // permissions.toml every time the operator hit "always allow".
    let i = input(r#"{"path": "/repo/src/foo.rs", "edits": []}"#);
    let s = derive_suggestions("MultiEdit", &i, &path_in(&i));
    assert!(s.iter().any(|x| x == "MultiEdit:/repo/src/**"));
    assert!(s.iter().any(|x| x == "MultiEdit:/repo/src/*"));
    assert_eq!(s.last().unwrap(), "MultiEdit:/repo/src/foo.rs");
}

#[test]
fn derive_suggestions_notebook_edit_emits_dir_globs_and_exact() {
    let i = input(r#"{"path": "/repo/nb.ipynb", "cell_id": "x", "new_source": ""}"#);
    let s = derive_suggestions("NotebookEdit", &i, &path_in(&i));
    assert!(s.iter().any(|x| x == "NotebookEdit:/repo/**"));
    assert!(s.iter().any(|x| x == "NotebookEdit:/repo/*"));
    assert_eq!(s.last().unwrap(), "NotebookEdit:/repo/nb.ipynb");
}

#[test]
fn derive_suggestions_falls_back_when_path_arg_missing() {
    // Defensive guard: if a future tool refactor renames the path
    // arg without updating this lookup, we must NOT emit a `Tool:`
    // suggestion with empty args — that's what caused the bug this
    // test is guarding against. Bare-tool fallback is acceptable
    // (operator can still pick `[custom]` for something narrower).
    let i = input(r#"{"file_path": "/oops/wrong/key.rs"}"#);
    let s = derive_suggestions("Edit", &i, &path_in(&i));
    assert_eq!(s, vec!["Edit".to_string()]);
    assert!(
        !s.iter().any(|x| x == "Edit:"),
        "must not emit broken `Edit:` suggestion when path lookup fails"
    );
}

#[test]
fn allow_once_resolves_to_allow() {
    let dec = ask_decision("Bash", AskEnd::Answered(AskResponse::AllowOnce));
    assert!(matches!(dec, HookDecision::Allow));
}

#[test]
fn deny_resolves_to_deny() {
    let dec = ask_decision("Bash", AskEnd::Answered(AskResponse::Deny));
    assert!(matches!(dec, HookDecision::Deny(_)));
}

#[test]
fn dropped_sender_resolves_to_deny() {
    let dec = ask_decision("Bash", AskEnd::Dropped);
    assert!(matches!(dec, HookDecision::Deny(_)));
}

#[test]
fn only_answers_that_allow_let_a_call_run() {
    for end in [
        AskEnd::Answered(AskResponse::AlwaysReject),
        AskEnd::TimedOut,
        AskEnd::Unavailable,
    ] {
        assert!(matches!(ask_decision("Edit", end), HookDecision::Deny(_)));
    }
    let dec = ask_decision("Edit", AskEnd::Answered(AskResponse::AlwaysAllow));
    assert!(matches!(dec, HookDecision::Allow));
}

#[test]
fn requests_carry_the_narrowest_pattern() {
    let req = AskRequest::new(7, "Bash", input(r#"{"command":"cargo test --all"}"#), None);
    assert_eq!(req.id, 7);
    assert_eq!(req.tool_name, "Bash");
    assert!(req.input_summary.starts_with("command=cargo test --all"));
    assert!(req.always_pattern.starts_with("Bash"));
}

#[test]
fn the_scope_picker_comes_round() {
    let mut sp = AlwaysSubprompt::new(vec!["Bash".into()], None, true, Action::Deny);
    let first = sp.scope;
    let mut seen: Vec<Scope> = vec![first];
    sp.cycle_scope();
    while sp.scope != first {
        seen.push(sp.scope);
        sp.cycle_scope();
    }
    assert_eq!(seen.len(), 4);
    assert!(!seen.contains(&Scope::Managed));
}

#[test]
fn typing_and_erasing_edit_one_field() {
    let mut sp = AlwaysSubprompt::new(vec!["Bash".into()], None, true, Action::Allow);
    sp.push_char('h');
    sp.push_char('i');
    sp.pop_char();
    assert_eq!(sp.comment, "h");
    sp.move_down();
    sp.push_char('X');
    assert_eq!(sp.custom.as_deref(), Some("X"));
    assert_eq!(sp.comment, "h");
    sp.move_up();
    assert_eq!(sp.selected_pattern(), "Bash");
}
