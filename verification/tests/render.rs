use std::collections::VecDeque;

use caliban::render::format_queued_indicator;
use caliban::render::status::format_spinner_cell;
use caliban::render::transcript::{format_bytes, format_tool_input};

#[test]
fn format_queued_indicator_none_when_empty() {
    let q: VecDeque<String> = VecDeque::new();
    assert!(format_queued_indicator(&q).is_none());
}

#[test]
fn format_queued_indicator_single_item() {
    let mut q: VecDeque<String> = VecDeque::new();
    q.push_back("hello world".into());
    assert_eq!(
        format_queued_indicator(&q).as_deref(),
        Some("QUEUED: hello world"),
    );
}

#[test]
fn format_queued_indicator_appends_count_suffix_when_many() {
    let mut q: VecDeque<String> = VecDeque::new();
    q.push_back("first".into());
    q.push_back("second".into());
    q.push_back("third".into());
    assert_eq!(
        format_queued_indicator(&q).as_deref(),
        Some("QUEUED: first (+2 more)"),
    );
}

#[test]
fn format_queued_indicator_truncates_long_preview() {
    let mut q: VecDeque<String> = VecDeque::new();
    q.push_back("x".repeat(120));
    let out = format_queued_indicator(&q).expect("non-empty");
    // "QUEUED: " (8) + 48 x's = 56 chars
    assert_eq!(out.chars().count(), 8 + 48);
    assert!(out.starts_with("QUEUED: xxxxx"));
}

#[test]
fn render_spinner_stalled_when_idle_over_3s_no_tools() {
    let now: u64 = 100_000;
    let last_delta = now - 12_000;
    let label = format_spinner_cell(false, last_delta, now);
    assert!(label.contains("no tokens for 12s"));
}

#[test]
fn render_spinner_normal_under_3s() {
    let now: u64 = 100_000;
    let last_delta = now - 1_000;
    let label = format_spinner_cell(false, last_delta, now);
    assert!(!label.contains("no tokens"));
}

#[test]
fn render_spinner_normal_when_tools_active() {
    let now: u64 = 100_000;
    let last_delta = now - 30_000;
    let label = format_spinner_cell(true, last_delta, now);
    assert!(!label.contains("no tokens"));
}

#[test]
fn format_bytes_renders_bytes_kb_and_mb() {
    assert_eq!(format_bytes(0), "0 B");
    assert_eq!(format_bytes(1023), "1023 B");
    assert_eq!(format_bytes(1024), "1.0 KB");
    assert_eq!(format_bytes(1536), "1.5 KB");
    assert_eq!(format_bytes(1024 * 1024), "1.0 MB");
    assert_eq!(format_bytes(3 * 1024 * 1024 / 2), "1.5 MB");
}

#[test]
fn format_tool_input_object_renders_key_value_pairs() {
    let out = format_tool_input(r#"{"command":"ls","recurse":true}"#, 80);
    assert!(out.contains("command=\"ls\""));
    assert!(out.contains("recurse=true"));
}

#[test]
fn format_tool_input_object_truncates_long_string_value() {
    let long = "a".repeat(60);
    let json = format!("{{\"path\":\"{long}\"}}");
    let out = format_tool_input(&json, 200);
    // String values over 40 chars get an ellipsis appended inside quotes.
    assert!(out.contains('\u{2026}'));
    assert!(out.starts_with("path=\"aaaa"));
}

#[test]
fn format_tool_input_object_renders_number_bool_null() {
    let out = format_tool_input(r#"{"n":42,"b":false,"x":null}"#, 80);
    assert!(out.contains("n=42"));
    assert!(out.contains("b=false"));
    assert!(out.contains("x=null"));
}

#[test]
fn format_tool_input_object_truncates_joined_over_max() {
    // Many keys so the joined string exceeds max_chars and gets clipped.
    let json = r#"{"aaaa":"1","bbbb":"2","cccc":"3","dddd":"4"}"#;
    let out = format_tool_input(json, 10);
    assert!(out.chars().count() <= 11); // 10 + ellipsis
    assert!(out.ends_with('\u{2026}'));
}

#[test]
fn format_tool_input_non_object_passthrough_and_truncation() {
    // Non-JSON input passes through, truncated at max_chars.
    assert_eq!(format_tool_input("hello", 80), "hello");
    let out = format_tool_input(&"x".repeat(100), 10);
    assert_eq!(out.chars().count(), 11);
    assert!(out.ends_with('\u{2026}'));
}

#[test]
fn a_waiting_prompt_shows_on_one_line() {
    let mut q: VecDeque<String> = VecDeque::new();
    q.push_back("first\nsecond\n".into());
    assert_eq!(format_queued_indicator(&q).as_deref(), Some("QUEUED: first second "));
    q.push_back("third".into());
    let out = format_queued_indicator(&q).unwrap();
    assert!(!out.contains('\n'));
    assert!(out.ends_with(" (+1 more)"));
}
