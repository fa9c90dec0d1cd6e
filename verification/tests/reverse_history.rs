use caliban::reverse_history::{
    history_entries, history_record, merge_histories, project_history_path, projects_root,
    sanitize_cwd, HistoryScope, HistorySource, ReverseHistoryState,
};

#[test]
fn cycle_visits_three_scopes() {
    let s = HistoryScope::Session;
    let s = s.cycle();
    assert_eq!(s, HistoryScope::Project);
    let s = s.cycle();
    assert_eq!(s, HistoryScope::AllProjects);
    let s = s.cycle();
    assert_eq!(s, HistoryScope::Session);
}

#[test]
fn sanitize_replaces_separators() {
    let p = "/Users/jf/dev/personal/caliban";
    let s = sanitize_cwd(p);
    // No slashes; only alphanumerics + `.` + `_` + `-`.
    for c in s.chars() {
        assert!(c.is_ascii_alphanumeric() || c == '.' || c == '_' || c == '-');
    }
    assert!(!s.starts_with('-'));
    assert!(!s.ends_with('-'));
}

#[test]
fn session_scope_filters_by_substring() {
    let h = vec!["git status".into(), "git push".into(), "echo hello".into()];
    let mut s = ReverseHistoryState::new(h, None, None);
    s.push_char('g');
    s.push_char('i');
    s.push_char('t');
    let m = s.matches();
    assert_eq!(m.len(), 2);
    // Newest first.
    assert_eq!(m[0], "git push");
}

#[test]
fn cycle_scope_advances() {
    let mut s = ReverseHistoryState::new(vec![], None, None);
    assert_eq!(s.scope, HistoryScope::Session);
    s.cycle_scope();
    assert_eq!(s.scope, HistoryScope::Project);
    s.cycle_scope();
    assert_eq!(s.scope, HistoryScope::AllProjects);
}

#[test]
fn cursor_moves_within_match_bounds() {
    let h = vec!["a".into(), "b".into(), "c".into()];
    let mut s = ReverseHistoryState::new(h, None, None);
    s.cursor_down();
    s.cursor_down();
    s.cursor_down(); // should clamp at last
    assert_eq!(s.cursor, 2);
    s.cursor_up();
    assert_eq!(s.cursor, 1);
}

#[test]
fn selected_returns_matching_entry() {
    let h = vec!["alpha".into(), "beta".into(), "gamma".into()];
    let mut s = ReverseHistoryState::new(h, None, None);
    // Newest first → cursor 0 selects "gamma".
    assert_eq!(s.selected().as_deref(), Some("gamma"));
    s.cursor_down();
    assert_eq!(s.selected().as_deref(), Some("beta"));
}

#[test]
fn case_insensitive_substring_match() {
    let h = vec!["GIT push".into(), "echo".into()];
    let mut s = ReverseHistoryState::new(h, None, None);
    s.push_char('g');
    s.push_char('i');
    s.push_char('t');
    let m = s.matches();
    assert_eq!(m.len(), 1);
    assert_eq!(m[0], "GIT push");
}

#[test]
fn append_then_load_roundtrip() {
    let mut body = String::new();
    body.push_str(&history_record("first"));
    body.push_str(&history_record("second"));
    let loaded = history_entries(&body);
    assert_eq!(loaded, vec!["first".to_string(), "second".to_string()]);
}

#[test]
fn project_history_path_includes_sanitized_cwd() {
    let path = project_history_path(Some("/home/op"), "/tmp/some project").unwrap();
    assert!(path.contains(".caliban/projects/"));
    assert!(path.ends_with("/input-history.txt"));
    assert_eq!(path, "/home/op/.caliban/projects/tmp-some-project/input-history.txt");
    assert!(project_history_path(None, "/tmp/some project").is_none());
}

#[test]
fn all_projects_walks_every_dir() {
    let bodies = vec![history_record("cmd-a"), history_record("cmd-b")];
    let all = merge_histories(&bodies);
    assert!(all.contains(&"cmd-a".to_string()));
    assert!(all.contains(&"cmd-b".to_string()));
    assert_eq!(all, vec!["cmd-a".to_string(), "cmd-b".to_string()]);
}

#[test]
fn merged_histories_stop_at_five_thousand() {
    let mut body = String::new();
    for i in 0..4000 {
        body.push_str(&history_record(&format!("p{i}")));
    }
    let all = merge_histories(&vec![body.clone(), body.clone(), body]);
    assert_eq!(all.len(), 5000);
    assert_eq!(all[4000], "p0");
}

#[test]
fn empty_prompts_leave_no_record() {
    assert_eq!(history_record(""), "");
    assert_eq!(history_entries("a\n\nb\r\n"), vec!["a".to_string(), "b".to_string()]);
}

#[test]
fn wider_scopes_ask_for_their_history_once() {
    let mut s = ReverseHistoryState::new(
        vec!["here".into()],
        Some("/p/input-history.txt".into()),
        Some("/projects".into()),
    );
    match s.cycle_scope() {
        Some(HistorySource::ProjectFile(p)) => assert_eq!(p, "/p/input-history.txt"),
        other => panic!("unexpected {other:?}"),
    }
    s.provide(vec!["there".into()]);
    assert_eq!(s.matches(), vec!["there".to_string()]);
    match s.cycle_scope() {
        Some(HistorySource::ProjectsRoot(p)) => assert_eq!(p, "/projects"),
        other => panic!("unexpected {other:?}"),
    }
    s.provide(vec!["anywhere".into()]);
    assert!(s.cycle_scope().is_none());
    assert_eq!(s.matches(), vec!["here".to_string()]);
    assert!(s.cycle_scope().is_none());
    assert_eq!(s.matches(), vec!["there".to_string()]);
}

#[test]
fn folding_goes_beyond_ascii() {
    let mut s = ReverseHistoryState::new(vec!["\u{c4}RGER".into()], None, None);
    s.push_char('\u{e4}');
    assert_eq!(s.matches(), vec!["\u{c4}RGER".to_string()]);
}

#[test]
fn prompts_repeated_in_a_row_show_once() {
    let s = ReverseHistoryState::new(
        vec!["a".into(), "b".into(), "b".into(), "a".into()],
        None,
        None,
    );
    assert_eq!(s.matches(), vec!["a".to_string(), "b".to_string(), "a".to_string()]);
    assert_eq!(projects_root(Some("/home/op")).as_deref(), Some("/home/op/.caliban/projects"));
}
