use caliban::rewind::{
    action_for_key, compose_fork_name, resolve_prompt_index, ManifestKind, PromptSummary,
    RewindAction,
};

fn is_valid_session_name(name: &str) -> bool {
    !name.is_empty()
        && name.len() <= 64
        && name.chars().all(|c| c.is_ascii_alphanumeric() || c == '-' || c == '_')
}

#[test]
fn compose_fork_name_is_valid_and_descriptive() {
    let n = compose_fork_name("myproj", 3, "abcdef1234567890");
    assert!(n.starts_with("myproj-fork3-"), "got {n}");
    assert!(is_valid_session_name(&n), "invalid: {n}");
}

#[test]
fn compose_fork_name_sanitizes_invalid_chars() {
    let n = compose_fork_name("my/proj name!.v2", 1, "deadbeef");
    assert!(is_valid_session_name(&n), "invalid: {n}");
    assert!(
        !n.contains('/') && !n.contains(' ') && !n.contains('!') && !n.contains('.'),
        "unsanitized char leaked: {n}"
    );
}

#[test]
fn compose_fork_name_truncates_long_parent_to_fit_64() {
    let parent = "a".repeat(200);
    let n = compose_fork_name(&parent, 42, "abcdef12");
    assert!(n.len() <= 64, "len {} > 64: {n}", n.len());
    assert!(is_valid_session_name(&n));
    assert!(n.ends_with("-fork42-abcdef12"), "suffix preserved: {n}");
}

#[test]
fn compose_fork_name_empty_parent_falls_back() {
    let n = compose_fork_name("", 2, "cafebabe");
    assert!(n.starts_with("session-fork2-"), "got {n}");
    assert!(is_valid_session_name(&n));
}

#[test]
fn compose_fork_name_all_invalid_parent_still_valid() {
    let n = compose_fork_name("///", 5, "1234abcd");
    assert!(is_valid_session_name(&n), "invalid: {n}");
}

#[test]
fn action_for_key_maps_advertised_keys_and_rejects_others() {
    assert_eq!(action_for_key('c'), Some(RewindAction::Code));
    assert_eq!(action_for_key('v'), Some(RewindAction::Conversation));
    assert_eq!(action_for_key('b'), Some(RewindAction::Both));
    assert_eq!(action_for_key('s'), Some(RewindAction::SummarizeForward));
    assert_eq!(action_for_key('S'), Some(RewindAction::SummarizeBackward));
    assert_eq!(action_for_key('f'), Some(RewindAction::Fork));
    // Case matters: `s` and `S` are distinct actions.
    assert_ne!(action_for_key('s'), action_for_key('S'));
    // Anything else falls through to the generic overlay keys.
    for other in ['q', 'x', 'C', 'a', '1'] {
        assert_eq!(action_for_key(other), None, "should not bind {other:?}");
    }
}

fn summary(prompt_index: u32) -> PromptSummary {
    PromptSummary {
        prompt_index,
        title: format!("prompt {prompt_index}"),
        kind: ManifestKind::Files,
        time: "12:00".into(),
        file_count: 1,
        partial: false,
    }
}

#[test]
fn resolve_prompt_index_indexes_the_newest_first_list() {
    // The list is newest first, so row 0 is the highest index.
    let prompts = vec![summary(5), summary(4), summary(3)];
    assert_eq!(resolve_prompt_index(&prompts, 0), Some(5));
    assert_eq!(resolve_prompt_index(&prompts, 2), Some(3));
    // Out of range or empty: nothing.
    assert_eq!(resolve_prompt_index(&prompts, 3), None);
    assert_eq!(resolve_prompt_index(&vec![], 0), None);
}
