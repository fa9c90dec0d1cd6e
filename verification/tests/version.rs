use caliban::version::compose_long_version;

#[test]
fn full_metadata_shows_sha_dirty_and_date() {
    assert_eq!(
        compose_long_version("0.4.0", "a2f19c3", "-dirty", "2026-07-03"),
        "0.4.0 (a2f19c3-dirty, 2026-07-03)"
    );
}

#[test]
fn clean_tree_omits_dirty_marker() {
    assert_eq!(
        compose_long_version("0.4.0", "a2f19c3", "", "2026-07-03"),
        "0.4.0 (a2f19c3, 2026-07-03)"
    );
}

#[test]
fn no_git_falls_back_to_bare_semver() {
    assert_eq!(compose_long_version("0.4.0", "", "", ""), "0.4.0");
}

#[test]
fn sha_without_date_omits_date_clause() {
    assert_eq!(
        compose_long_version("0.4.0", "a2f19c3", "", ""),
        "0.4.0 (a2f19c3)"
    );
}

#[test]
fn empty_sha_ignores_stray_dirty_or_date() {
    // Defensive: if the SHA is missing we report only the semver even
    // when other fields somehow leaked through.
    assert_eq!(
        compose_long_version("0.4.0", "", "-dirty", "2026-07-03"),
        "0.4.0"
    );
}
