use caliban::external_editor::resolve_editor_argv_from;

#[test]
fn resolve_uses_visual_first() {
    let (p, _args) = resolve_editor_argv_from(Some("myvisual"), Some("myeditor")).unwrap();
    assert_eq!(p, "myvisual");
}

#[test]
fn resolve_falls_back_to_editor() {
    let (p, _args) = resolve_editor_argv_from(None, Some("myeditor")).unwrap();
    assert_eq!(p, "myeditor");
}

#[test]
fn resolve_defaults_to_vi() {
    let (p, _args) = resolve_editor_argv_from(None, None).unwrap();
    assert_eq!(p, "vi");
}

#[test]
fn resolve_splits_args_verbatim() {
    let (p, args) = resolve_editor_argv_from(None, Some("code --wait")).unwrap();
    assert_eq!(p, "code");
    assert_eq!(args, vec!["--wait".to_string()]);
}
