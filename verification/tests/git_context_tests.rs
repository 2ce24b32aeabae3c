use gitcredit::git_context::{
    first_git_subcommand, join_git_c_path, parse_leading_git_globals, resolve_git_working_directory,
};

fn args(list: &[&str]) -> Vec<String> {
    list.iter().map(|s| s.to_string()).collect()
}

#[test]
fn subcommand_without_globals() {
    let argv = args(&["push", "origin", "main"]);
    assert_eq!(first_git_subcommand(&argv), Some("push"));
}

#[test]
fn subcommand_after_c_dir() {
    let argv = args(&["-C", "x", "push", "origin", "main"]);
    assert_eq!(first_git_subcommand(&argv), Some("push"));
}

#[test]
fn subcommand_after_config_pairs() {
    let argv = args(&["-c", "user.name=a", "-cuser.email=b", "--namespace", "ns", "status"]);
    assert_eq!(first_git_subcommand(&argv), Some("status"));
}

#[test]
fn namespace_with_equals() {
    assert_eq!(first_git_subcommand(&args(&["--namespace=ns", "push"])), Some("push"));
    assert_eq!(first_git_subcommand(&args(&["--namespace=", "ns", "push"])), Some("push"));
    assert_eq!(first_git_subcommand(&args(&["--namespace="])), None);
}

#[test]
fn dangling_option_is_the_subcommand() {
    assert_eq!(first_git_subcommand(&args(&["-C"])), Some("-C"));
    assert_eq!(first_git_subcommand(&args(&["-c"])), Some("-c"));
    assert_eq!(first_git_subcommand(&args(&["--namespace"])), Some("--namespace"));
}

#[test]
fn unknown_option_stops_the_scan() {
    assert_eq!(first_git_subcommand(&args(&["--bare", "push"])), Some("--bare"));
    assert_eq!(first_git_subcommand(&args(&["-cfoo", "push"])), Some("-cfoo"));
}

#[test]
fn no_subcommand() {
    assert_eq!(first_git_subcommand(&args(&[])), None);
    assert_eq!(first_git_subcommand(&args(&["-C", "x"])), None);
}

#[test]
fn index_of_subcommand() {
    let (dir, i) = parse_leading_git_globals("/home/u", &args(&["-C", "a", "-C=b", "commit"]));
    assert_eq!(i, 3);
    assert_eq!(dir, "/home/u/a/b");
}

#[test]
fn absolute_c_dir_replaces() {
    let dir = resolve_git_working_directory("/home/u", &args(&["-C", "a", "-C", "/srv/repo", "push"]));
    assert_eq!(dir, "/srv/repo");
}

#[test]
fn working_directory_without_globals() {
    assert_eq!(resolve_git_working_directory("/work", &args(&["push"])), "/work");
    assert_eq!(resolve_git_working_directory("/work", &args(&[])), "/work");
}

#[test]
fn join_path_forms() {
    assert_eq!(join_git_c_path("/a", "b"), "/a/b");
    assert_eq!(join_git_c_path("/a/", "b"), "/a/b");
    assert_eq!(join_git_c_path("", "b"), "b");
    assert_eq!(join_git_c_path("/a", "/c"), "/c");
    assert_eq!(join_git_c_path("/a", ""), "/a/");
    assert_eq!(join_git_c_path(".", "repo"), "./repo");
}

#[test]
fn join_path_matches_std() {
    for (base, path) in [("/a", "b"), ("/a/", "b"), ("", "b"), ("/a", "/c"), ("/a", ""), ("x/y", "../z")] {
        let expected = std::path::Path::new(base).join(path);
        assert_eq!(join_git_c_path(base, path), expected.to_str().unwrap());
    }
}

#[test]
fn global_pair_keeps_subcommand_example() {
    let plain = args(&["push", "origin"]);
    for opt in ["-C", "-c", "--namespace"] {
        let mut with = args(&[opt, "v"]);
        with.extend(plain.clone());
        assert_eq!(first_git_subcommand(&with), first_git_subcommand(&plain));
    }
}
