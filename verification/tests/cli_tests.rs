use gitcredit::cli::{
    classify_configure, classify_invocation, exit_status_byte, git_exit_code, strip_optional_git_prefix,
    ConfigureCommand, Invocation,
};
use gitcredit::git_exec::{is_runnable, pick_git_candidate, GitCandidate};
use gitcredit::text::{non_blank_trimmed, trim_str};

fn args(list: &[&str]) -> Vec<String> {
    list.iter().map(|s| s.to_string()).collect()
}

#[test]
fn invocations() {
    assert_eq!(classify_invocation(&args(&["--version"])), Invocation::Version);
    assert_eq!(classify_invocation(&args(&["-V"])), Invocation::Version);
    assert_eq!(classify_invocation(&args(&["-V", "x"])), Invocation::Git);
    assert_eq!(classify_invocation(&args(&["help"])), Invocation::Help);
    assert_eq!(classify_invocation(&args(&["--help"])), Invocation::Help);
    assert_eq!(classify_invocation(&args(&["-h"])), Invocation::Help);
    assert_eq!(classify_invocation(&args(&["help", "push"])), Invocation::Git);
    assert_eq!(classify_invocation(&args(&["config-path"])), Invocation::ConfigPath);
    assert_eq!(classify_invocation(&args(&["gitcredit-login-path", "x"])), Invocation::ConfigPath);
    assert_eq!(classify_invocation(&args(&["configure", "show"])), Invocation::Configure);
    assert_eq!(classify_invocation(&args(&["record"])), Invocation::Record);
    assert_eq!(classify_invocation(&args(&["status"])), Invocation::Git);
    assert_eq!(classify_invocation(&args(&[])), Invocation::Git);
}

#[test]
fn git_prefix_stripped() {
    assert_eq!(strip_optional_git_prefix(args(&["git", "push"])), args(&["push"]));
    assert_eq!(strip_optional_git_prefix(args(&["git"])), args(&["git"]));
    assert_eq!(strip_optional_git_prefix(args(&["git", "git", "push"])), args(&["git", "push"]));
    assert_eq!(strip_optional_git_prefix(args(&["status"])), args(&["status"]));
    assert_eq!(strip_optional_git_prefix(args(&[])), args(&[]));
}

#[test]
fn configure_commands() {
    assert!(matches!(classify_configure(&args(&[])), ConfigureCommand::Help));
    assert!(matches!(classify_configure(&args(&["help"])), ConfigureCommand::Help));
    assert!(matches!(classify_configure(&args(&["-h"])), ConfigureCommand::Help));
    assert!(matches!(classify_configure(&args(&["show"])), ConfigureCommand::Show));
    match classify_configure(&args(&["api-key", "  k123 "])) {
        ConfigureCommand::ApiKey(Some(k)) => assert_eq!(k, "k123"),
        _ => panic!("expected a key"),
    }
    assert!(matches!(classify_configure(&args(&["api-key"])), ConfigureCommand::ApiKey(None)));
    assert!(matches!(classify_configure(&args(&["api-key", " "])), ConfigureCommand::ApiKey(None)));
    match classify_configure(&args(&["frobnicate"])) {
        ConfigureCommand::Unknown(w) => assert_eq!(w, "frobnicate"),
        _ => panic!("expected an unknown subcommand"),
    }
}

#[test]
fn exit_codes() {
    assert_eq!(git_exit_code(Some(3), false), 3);
    assert_eq!(git_exit_code(None, true), 0);
    assert_eq!(git_exit_code(None, false), 1);
    assert_eq!(exit_status_byte(0), 0);
    assert_eq!(exit_status_byte(128), 128);
    assert_eq!(exit_status_byte(255), 255);
    assert_eq!(exit_status_byte(256), 1);
    assert_eq!(exit_status_byte(-1), 1);
}

#[test]
fn runnable_files() {
    assert!(is_runnable(true, false, 0o755));
    assert!(is_runnable(true, false, 0o001));
    assert!(!is_runnable(true, false, 0o644));
    assert!(is_runnable(false, true, 0));
    assert!(!is_runnable(false, false, 0o777));
}

#[test]
fn pick_first_acceptable() {
    let bad = GitCandidate { runnable: false, resolved: true, is_self: false };
    let me = GitCandidate { runnable: true, resolved: true, is_self: true };
    let lost = GitCandidate { runnable: true, resolved: false, is_self: false };
    let good = GitCandidate { runnable: true, resolved: true, is_self: false };
    assert_eq!(pick_git_candidate(&[bad, me, lost, good, good]), Some(3));
    assert_eq!(pick_git_candidate(&[bad, me, lost]), None);
    assert_eq!(pick_git_candidate(&[]), None);
}

#[test]
fn trimming_matches_std() {
    for s in ["", "  ", " a ", "\t\na b\r\n", "\u{3000}x\u{2003}", "\u{85}y\u{a0}", "z\u{200b}"] {
        assert_eq!(trim_str(s), s.trim());
    }
    assert_eq!(non_blank_trimmed("  x "), Some("x".to_string()));
    assert_eq!(non_blank_trimmed(" \u{2028} "), None);
}
