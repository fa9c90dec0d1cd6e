use caliban::shell_escape::{
    parse_shell_escape, shell_call_id, uuid_like_id, ShellEscapeIntent,
};

#[test]
fn empty_input_is_not_shell_escape() {
    assert_eq!(parse_shell_escape(""), ShellEscapeIntent::NotShellEscape);
    assert_eq!(parse_shell_escape("!"), ShellEscapeIntent::NotShellEscape);
    assert_eq!(parse_shell_escape("   "), ShellEscapeIntent::NotShellEscape);
}

#[test]
fn bare_bang_with_command_triggers() {
    assert_eq!(
        parse_shell_escape("!ls"),
        ShellEscapeIntent::Run("ls".into())
    );
    assert_eq!(
        parse_shell_escape("!git status"),
        ShellEscapeIntent::Run("git status".into())
    );
}

#[test]
fn whitespace_before_bang_is_tolerated() {
    // Leading whitespace at column 0 is forgiven (mirrors how shells handle
    // accidental indents).
    assert_eq!(
        parse_shell_escape("  !ls"),
        ShellEscapeIntent::Run("ls".into())
    );
}

#[test]
fn bang_not_at_start_is_not_shell_escape() {
    assert_eq!(
        parse_shell_escape("echo !foo"),
        ShellEscapeIntent::NotShellEscape
    );
}

#[test]
fn multiline_buffer_disables_shell_escape() {
    // Multi-line prompts must not be hijacked by a `!` that happens to be
    // at the start.
    assert_eq!(
        parse_shell_escape("!ls\nnope"),
        ShellEscapeIntent::NotShellEscape
    );
}

#[test]
fn identifiers_have_eight_digits() {
    for seed in ["", "ls", "echo hello world", "cargo test --workspace --all-features", "\u{e9}"] {
        let id = uuid_like_id(seed);
        assert_eq!(id.len(), 8, "{seed}");
        assert!(id.chars().all(|c| c.is_ascii_digit() || ('a'..='f').contains(&c)), "{id}");
        assert_eq!(id, uuid_like_id(seed));
        assert_eq!(shell_call_id(seed), format!("shell-escape-{id}"));
    }
    let n: u64 = "echo hello world"
        .bytes()
        .fold(0u64, |a, b| a.wrapping_mul(31).wrapping_add(u64::from(b)));
    assert_eq!(uuid_like_id("echo hello world"), format!("{n:016x}")[..8]);
}
