use gitcredit::config::{Config, DEFAULT_API_URL};
use gitcredit::reporter::{
    contribution_response, fingerprint_hex, fingerprint_opaque, join_url, maybe_record_after_git,
    plan_contribution_report, resolve_repository_id, RepoIdSource, RepoIdStep, ReportError,
    ReportPlan, REPORT_PATH,
};

fn args(list: &[&str]) -> Vec<String> {
    list.iter().map(|s| s.to_string()).collect()
}

#[test]
fn record_after_successful_push() {
    assert!(maybe_record_after_git(&args(&["push", "origin", "main"]), 0));
    assert!(maybe_record_after_git(&args(&["-C", "repo", "push"]), 0));
}

#[test]
fn no_record_after_failure_or_other_command() {
    assert!(!maybe_record_after_git(&args(&["push"]), 1));
    assert!(!maybe_record_after_git(&args(&["push"]), -1));
    assert!(!maybe_record_after_git(&args(&["commit", "-m", "push"]), 0));
    assert!(!maybe_record_after_git(&args(&[]), 0));
    assert!(!maybe_record_after_git(&args(&["pushx"]), 0));
}

#[test]
fn join_url_trims_trailing_slashes() {
    assert_eq!(join_url("https://a.example/", "/v1/x").unwrap(), "https://a.example/v1/x");
    assert_eq!(join_url("https://a.example///", "/p").unwrap(), "https://a.example/p");
    assert_eq!(join_url("https://a.example", "/p").unwrap(), "https://a.example/p");
}

#[test]
fn join_url_invalid() {
    assert!(matches!(join_url("", "/p"), Err(ReportError::InvalidUrl)));
    assert!(matches!(join_url("///", "/p"), Err(ReportError::InvalidUrl)));
}

#[test]
fn trailing_slash_law_example() {
    let a = join_url("https://h", REPORT_PATH).unwrap();
    let b = join_url("https://h/", REPORT_PATH).unwrap();
    assert_eq!(a, b);
}

#[test]
fn error_messages() {
    assert_eq!(ReportError::InvalidUrl.message(), "invalid API URL");
    assert_eq!(ReportError::Http("404 Not Found".to_string()).message(), "HTTP error: 404 Not Found");
}

#[test]
fn plan_skip_without_key() {
    let cfg = Config { api_url: Some(DEFAULT_API_URL.to_string()), api_key: None };
    assert!(matches!(
        plan_contribution_report(&cfg),
        Ok(ReportPlan::Skip { missing_key_hint: true })
    ));
}

#[test]
fn plan_skip_without_url() {
    let cfg = Config { api_url: Some(String::new()), api_key: Some("k".to_string()) };
    assert!(matches!(
        plan_contribution_report(&cfg),
        Ok(ReportPlan::Skip { missing_key_hint: false })
    ));
}

#[test]
fn plan_send() {
    let cfg = Config { api_url: Some("https://api.example/".to_string()), api_key: Some("k1".to_string()) };
    match plan_contribution_report(&cfg) {
        Ok(ReportPlan::Send { url, api_key }) => {
            assert_eq!(url, "https://api.example/v1/contribution/create_contribution");
            assert_eq!(api_key, "k1");
        }
        _ => panic!("expected a report to send"),
    }
}

#[test]
fn plan_invalid_url() {
    let cfg = Config { api_url: Some("//".to_string()), api_key: Some("k1".to_string()) };
    assert!(matches!(plan_contribution_report(&cfg), Err(ReportError::InvalidUrl)));
}

#[test]
fn response_outcomes() {
    assert!(contribution_response(true, "200 OK", "").is_ok());
    match contribution_response(false, "401 Unauthorized", "bad key") {
        Err(ReportError::Http(m)) => assert_eq!(m, "401 Unauthorized bad key"),
        _ => panic!("expected an HTTP error"),
    }
}

#[test]
fn fingerprint_of_abc() {
    // SHA-256("abc") = ba7816bf 8f01cfea 414140de ...
    assert_eq!(fingerprint_opaque("abc"), "ba7816bf8f01cfea");
}

#[test]
fn fingerprint_of_empty() {
    // SHA-256("") = e3b0c442 98fc1c14 ...
    assert_eq!(fingerprint_opaque(""), "e3b0c44298fc1c14");
}

#[test]
fn fingerprint_hex_exact() {
    let digest = [0x00u8, 0x01, 0x7f, 0x80, 0xab, 0xcd, 0xef, 0xff, 0x12];
    assert_eq!(fingerprint_hex(&digest), "00017f80abcdefff");
}

#[test]
fn fingerprint_shape() {
    let f = fingerprint_opaque("git@github.com:user/repo.git");
    assert_eq!(f.len(), 16);
    assert!(f.chars().all(|c| c.is_ascii_hexdigit() && !c.is_ascii_uppercase()));
    assert_eq!(f, fingerprint_opaque("git@github.com:user/repo.git"));
}

fn found(step: RepoIdStep) -> Option<String> {
    match step {
        RepoIdStep::Found(id) => id,
        RepoIdStep::Ask(_) => panic!("expected an id"),
    }
}

fn asks(step: RepoIdStep) -> RepoIdSource {
    match step {
        RepoIdStep::Ask(s) => s,
        RepoIdStep::Found(_) => panic!("expected another source"),
    }
}

#[test]
fn configured_id_is_taken_as_is() {
    let id = found(resolve_repository_id(RepoIdSource::ConfiguredId, Some("  my-repo \n".to_string())));
    assert_eq!(id.as_deref(), Some("my-repo"));
}

#[test]
fn origin_url_is_fingerprinted() {
    assert_eq!(asks(resolve_repository_id(RepoIdSource::ConfiguredId, None)), RepoIdSource::OriginUrl);
    assert_eq!(asks(resolve_repository_id(RepoIdSource::ConfiguredId, Some(" ".to_string()))), RepoIdSource::OriginUrl);
    let id = found(resolve_repository_id(RepoIdSource::OriginUrl, Some(" abc ".to_string())));
    assert_eq!(id.as_deref(), Some("ba7816bf8f01cfea"));
}

#[test]
fn common_dir_is_last() {
    assert_eq!(asks(resolve_repository_id(RepoIdSource::OriginUrl, None)), RepoIdSource::CommonDir);
    assert_eq!(found(resolve_repository_id(RepoIdSource::CommonDir, None)), None);
    assert_eq!(found(resolve_repository_id(RepoIdSource::CommonDir, Some("".to_string()))), None);
    let id = found(resolve_repository_id(RepoIdSource::CommonDir, Some("abc".to_string())));
    assert_eq!(id.as_deref(), Some("ba7816bf8f01cfea"));
}

#[test]
fn git_args_per_source() {
    assert_eq!(RepoIdSource::ConfiguredId.git_args(), vec!["config", "--get", "gitcredit.repositoryId"]);
    assert_eq!(RepoIdSource::OriginUrl.git_args(), vec!["remote", "get-url", "origin"]);
    assert_eq!(
        RepoIdSource::CommonDir.git_args(),
        vec!["rev-parse", "--path-format=absolute", "--git-common-dir"]
    );
}
