use caliban::style::Line;
use caliban::transcript_viewer::{
    dump_plain, format_history, help_lines, TranscriptViewerState,
};
use caliban::types::{ContentBlock, Message, Role};

fn user(text: &str) -> Message {
    Message::user_text(text)
}

fn assistant(text: &str) -> Message {
    Message::assistant_text(text)
}

fn joined(lines: &[Line], sep: &str) -> String {
    lines
        .iter()
        .flat_map(|l| l.spans.iter().map(|s| s.content.as_str()))
        .collect::<Vec<&str>>()
        .join(sep)
}

#[test]
fn scroll_helpers_clamp_at_zero_and_max() {
    let mut s = TranscriptViewerState::default();
    s.up(5);
    assert_eq!(s.scroll, 0);
    s.down(3, 2);
    assert_eq!(s.scroll, 2);
    s.down(100, 2);
    assert_eq!(s.scroll, 2);
}

#[test]
fn format_renders_user_and_assistant() {
    let msgs = vec![user("hi"), assistant("hello")];
    let joined = joined(&format_history(&msgs, false), "|");
    assert!(joined.contains("user:"));
    assert!(joined.contains("hi"));
    assert!(joined.contains("assistant:"));
    assert!(joined.contains("hello"));
}

#[test]
fn format_hides_thinking_when_show_all_false() {
    let msgs = vec![Message {
        role: Role::Assistant,
        content: vec![
            ContentBlock::Thinking("secret deliberation".into()),
            ContentBlock::Text("spoken".into()),
        ],
    }];
    assert!(!joined(&format_history(&msgs, false), "|").contains("secret deliberation"));
    assert!(joined(&format_history(&msgs, true), "|").contains("secret deliberation"));
}

#[test]
fn format_renders_tool_use_and_result() {
    let msgs = vec![
        Message {
            role: Role::Assistant,
            content: vec![ContentBlock::ToolUse {
                id: "tool_1".into(),
                name: "Bash".into(),
                input: r#"{"command":"ls"}"#.into(),
            }],
        },
        Message {
            role: Role::User,
            content: vec![ContentBlock::ToolResult {
                tool_use_id: "tool_1".into(),
                texts: vec!["file1\nfile2".into()],
                is_error: false,
            }],
        },
    ];
    let joined = joined(&format_history(&msgs, true), "|");
    assert!(joined.contains("Bash"));
    assert!(joined.contains("file1"));
}

#[test]
fn dump_plain_emits_visible_text() {
    let msgs = vec![user("the quick brown fox"), assistant("jumps over")];
    let s = dump_plain(&msgs, false);
    assert!(s.contains("the quick brown fox"));
    assert!(s.contains("jumps over"));
}

#[test]
fn help_lines_mention_all_keys() {
    let joined = joined(&help_lines(), "\n");
    for needle in ["[", "v", "Esc", "Ctrl+E"] {
        assert!(joined.contains(needle), "help missing: {needle}");
    }
}
