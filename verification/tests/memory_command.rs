use caliban::slash::existing::{delete_action, parse_delete_args, DeleteAction};

#[test]
fn action_no_slug_is_usage() {
    let p = parse_delete_args("");
    assert_eq!(delete_action(&p, true), DeleteAction::Usage);
}

#[test]
fn action_missing_file_is_no_such_topic() {
    let p = parse_delete_args("foo");
    assert_eq!(delete_action(&p, false), DeleteAction::NoSuchTopic);
}

#[test]
fn action_existing_without_force_previews_never_deletes() {
    let p = parse_delete_args("foo");
    assert_eq!(delete_action(&p, true), DeleteAction::Preview);
}

#[test]
fn action_existing_with_force_deletes() {
    let p = parse_delete_args("foo --force");
    assert_eq!(delete_action(&p, true), DeleteAction::Delete);
}

#[test]
fn action_force_on_missing_file_is_no_such_topic_not_delete() {
    let p = parse_delete_args("foo --force");
    assert_eq!(delete_action(&p, false), DeleteAction::NoSuchTopic);
}

#[test]
fn delete_args_slug_only_is_not_forced() {
    let p = parse_delete_args("foo");
    assert_eq!(p.slug.as_deref(), Some("foo"));
    assert!(!p.force);
}

#[test]
fn delete_args_slug_then_force_flag_sets_force() {
    let p = parse_delete_args("foo --force");
    assert_eq!(p.slug.as_deref(), Some("foo"));
    assert!(p.force);
}

#[test]
fn delete_args_force_flag_before_slug_still_parses_both() {
    let p = parse_delete_args("--force foo");
    assert_eq!(p.slug.as_deref(), Some("foo"));
    assert!(p.force);
}

#[test]
fn delete_args_empty_has_no_slug() {
    let p = parse_delete_args("");
    assert_eq!(p.slug, None);
    assert!(!p.force);
}

#[test]
fn delete_args_force_only_has_no_slug() {
    let p = parse_delete_args("--force");
    assert_eq!(p.slug, None);
    assert!(p.force);
}
