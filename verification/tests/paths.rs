use icon_gen::pathcmd::{normalize_path, normalize_path_no_absolute, Cmd};

#[test]
fn normalize_path_resolves_dots() {
    assert_eq!(normalize_path("/foo/./bar/../baz"), "/foo/baz");
    assert_eq!(normalize_path("foo//bar"), "foo/bar");
    assert_eq!(normalize_path("a/../../b"), "b");
    assert_eq!(normalize_path("/.."), "/");
    assert_eq!(normalize_path(""), "");
    assert_eq!(normalize_path("."), "");
    assert_eq!(normalize_path("a/b/"), "a/b");
}

#[test]
fn normalize_path_no_absolute_agrees_on_slash_paths() {
    for p in ["/foo/./bar/../baz", "foo//bar", "a/../../b", "/..", "", ".", "a/b/"] {
        assert_eq!(normalize_path(p), normalize_path_no_absolute(p));
    }
}

#[test]
fn normalize_command_keeps_dot_results_and_trailing_separators() {
    assert_eq!(Cmd::normalize(".."), "..");
    assert_eq!(Cmd::normalize("."), ".");
    assert_eq!(Cmd::normalize("foo/bar/"), "foo/bar/");
    assert_eq!(Cmd::normalize("foo/./bar"), "foo/bar");
    assert_eq!(Cmd::normalize("foo/../bar"), "bar");
}

#[test]
fn join_command_concatenates_and_normalizes() {
    assert_eq!(Cmd::join(&vec!["foo".to_string(), "bar".to_string()]), "foo/bar");
    assert_eq!(
        Cmd::join(&vec!["foo/".to_string(), "..".to_string(), "baz".to_string()]),
        "baz"
    );
    assert_eq!(Cmd::join(&Vec::new()), ".");
    assert_eq!(Cmd::join(&vec![".".to_string()]), ".");
}

#[test]
fn dirname_drops_the_final_component() {
    assert_eq!(Cmd::dirname("/a/b/c"), Some("/a/b".to_string()));
    assert_eq!(Cmd::dirname("a"), Some("".to_string()));
    assert_eq!(Cmd::dirname("./a"), Some(".".to_string()));
    assert_eq!(Cmd::dirname("a/b/"), Some("a".to_string()));
    assert_eq!(Cmd::dirname("a//b"), Some("a".to_string()));
    assert_eq!(Cmd::dirname("/a"), Some("/".to_string()));
    assert_eq!(Cmd::dirname(".."), Some("".to_string()));
    assert_eq!(Cmd::dirname("/"), None);
    assert_eq!(Cmd::dirname(""), None);
}

#[test]
fn extname_takes_what_follows_the_last_dot() {
    assert_eq!(Cmd::extname("a/b/c.txt"), Some("txt".to_string()));
    assert_eq!(Cmd::extname("a.tar.gz"), Some("gz".to_string()));
    assert_eq!(Cmd::extname("a."), Some("".to_string()));
    assert_eq!(Cmd::extname(".bashrc"), None);
    assert_eq!(Cmd::extname("plain"), None);
    assert_eq!(Cmd::extname("dir/"), None);
    assert_eq!(Cmd::extname(""), None);
}

#[test]
fn basename_takes_the_final_component_and_strips_the_extension() {
    assert_eq!(Cmd::basename("a/b/c.txt", None), Some("c.txt".to_string()));
    assert_eq!(Cmd::basename("a/b/c.txt", Some(".txt")), Some("c".to_string()));
    // Every occurrence of the extension string is removed, as the command
    // has always behaved.
    assert_eq!(Cmd::basename("x.txt.txt", Some(".txt")), Some("x".to_string()));
    assert_eq!(Cmd::basename("a/b/", None), Some("b".to_string()));
    assert_eq!(Cmd::basename("a/..", None), None);
    assert_eq!(Cmd::basename("/", None), None);
    assert_eq!(Cmd::basename("c.txt", Some("")), Some("c.txt".to_string()));
}

#[test]
fn is_absolute_checks_the_leading_separator() {
    assert!(Cmd::is_absolute("/foo"));
    assert!(!Cmd::is_absolute("foo/bar"));
    assert!(!Cmd::is_absolute(""));
}

#[test]
fn chars_round_trip_through_normalization() {
    // The rendered string really is rebuilt from characters: a path that
    // normalization changes must come back different.
    let p = "a/./b";
    assert_eq!(normalize_path(p), "a/b");
    assert_ne!(normalize_path(p), p);
}
