use caliban::path::{below_home as below, parent_of};

#[test]
fn parents_follow_path_components() {
    assert_eq!(parent_of("/repo/src/foo.rs").as_deref(), Some("/repo/src"));
    assert_eq!(parent_of("/foo").as_deref(), Some("/"));
    assert_eq!(parent_of("foo").as_deref(), Some(""));
    assert_eq!(parent_of("/"), None);
    assert_eq!(parent_of(""), None);
    assert_eq!(parent_of("a/b/").as_deref(), Some("a"));
}

#[test]
fn a_directory_lies_below_another_by_its_names() {
    assert_eq!(below("/home/me", "/home/me/src/tui").as_deref(), Some("src/tui"));
    assert_eq!(below("/home/me", "/home/meg/src"), None);
    assert_eq!(below("/home/me", "/home"), None);
    assert_eq!(below("/home/me", "/srv"), None);
    assert_eq!(below("/", "/srv/www").as_deref(), Some("srv/www"));
    assert_eq!(below("home", "home/me").as_deref(), Some("me"));
}

#[test]
fn a_directory_lies_below_itself_as_nothing() {
    for dir in ["/home/me", "/", "", ".", "a/b", "/home//me/./"] {
        assert_eq!(below(dir, dir).as_deref(), Some(""), "{dir}");
    }
}

#[test]
fn slashes_and_dots_that_name_nothing_count_for_nothing() {
    assert_eq!(below("/home/me/", "/home//./me/a").as_deref(), Some("a"));
    assert_eq!(below("/home/me", "/home/me//.//a/./b//./").as_deref(), Some("a/./b"));
    assert_eq!(below("/home/me", "/home/me/./").as_deref(), Some(""));
    assert_eq!(below("/home/me", "/home/me/..").as_deref(), Some(".."));
    assert_eq!(below("/home/me", "/home/me/.config").as_deref(), Some(".config"));
}

#[test]
fn roots_and_leading_dots_have_to_agree() {
    assert_eq!(below("/home", "home"), None);
    assert_eq!(below("home", "/home"), None);
    assert_eq!(below(".", "./a").as_deref(), Some("a"));
    assert_eq!(below("./a", "a"), None);
    assert_eq!(below("a", "./a"), None);
    assert_eq!(below("", "/a/b/").as_deref(), Some("/a/b"));
    assert_eq!(below("", "./a/.").as_deref(), Some("./a"));
    assert_eq!(below("", "//").as_deref(), Some("/"));
    assert_eq!(below("a", ""), None);
}

#[test]
fn paths_are_told_apart_as_std_does() {
    let paths = [
        "", "/", "//", ".", "./", "..", "a", "/a", "./a", "a/", "a//b", "/a/b", "/a/./b/", "/a/../b",
        "a/b/c", "/a/b/c/.", "//a///b", "./a/b", ".a", "/.a/b", "é/ü", "/é/ü/",
    ];
    for home in paths {
        for dir in paths {
            let expected = std::path::Path::new(dir)
                .strip_prefix(home)
                .ok()
                .and_then(|p| p.to_str().map(str::to_string));
            assert_eq!(below(home, dir), expected, "{home:?} {dir:?}");
        }
    }
}
