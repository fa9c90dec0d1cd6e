use caliban::attach::split_at_token;

#[test]
fn empty_token_is_workspace_root() {
    let (d, n) = split_at_token(
        "",
        "/ws",
        "/ws/sub",
        Some("/home"),
    );
    assert_eq!(d, "/ws");
    assert_eq!(n, "");
}

#[test]
fn bare_name_resolves_against_workspace() {
    let (d, n) = split_at_token("foo", "/ws", "/ws", None);
    assert_eq!(d, "/ws");
    assert_eq!(n, "foo");
}

#[test]
fn nested_relative_under_workspace() {
    let (d, n) = split_at_token("src/ma", "/ws", "/ws", None);
    assert_eq!(d, "/ws/src/");
    assert_eq!(n, "ma");
}

#[test]
fn absolute_path_passes_through() {
    let (d, n) = split_at_token("/etc/h", "/ws", "/ws", None);
    assert_eq!(d, "/etc/");
    assert_eq!(n, "h");
}

#[test]
fn tilde_expands_to_home() {
    let (d, n) = split_at_token(
        "~/.config/f",
        "/ws",
        "/ws",
        Some("/home/john"),
    );
    assert_eq!(d, "/home/john/.config/");
    assert_eq!(n, "f");
}

#[test]
fn dotdot_resolves_against_cwd() {
    let (d, n) = split_at_token("../sib/x", "/ws", "/ws/inner", None);
    assert_eq!(d, "/ws/inner/../sib/");
    assert_eq!(n, "x");
}

#[test]
fn trailing_slash_means_empty_name() {
    let (d, n) = split_at_token("src/", "/ws", "/ws", None);
    assert_eq!(d, "/ws/src/");
    assert_eq!(n, "");
}
