//! Contribution reports: when one is due, where it goes, which repository id
//! it carries, and what an answer of the API amounts to.

use vstd::prelude::*;
use vstd::utf8::encode_utf8;

use sha2::Digest;

use crate::config::{has_key, reports_enabled, Config, DEFAULT_API_URL};
use crate::git_context::{
    args_view, first_git_subcommand, law_global_pair_keeps_subcommand, law_plain_first_argument,
    subcommand,
};
use crate::text::{non_blank, trim, non_blank_opt, opt_non_blank, opt_view, str_eq, trim_end_char, trim_end_matches_char};

verus! {

/// The path of the report endpoint below the API URL.
pub const REPORT_PATH: &'static str = "/v1/contribution/create_contribution";

/// Why a report failed.
#[derive(Debug)]
pub enum ReportError {
    InvalidUrl,
    Http(String),
}

impl ReportError {
    /// The message for the error.
    pub fn message(&self) -> (res: String)
        ensures
            res@ == match self {
                ReportError::InvalidUrl => "invalid API URL"@,
                ReportError::Http(m) => "HTTP error: "@ + m@,
            },
    {
        match self {
            ReportError::InvalidUrl => "invalid API URL".to_owned(),
            ReportError::Http(m) => {
                let mut res = "HTTP error: ".to_owned();
                res.append(m.as_str());
                res
            },
        }
    }
}

/// After git has run: a report is due when git exited with 0 and its
/// subcommand was `push`.
pub open spec fn report_due(args: Seq<Seq<char>>, exit_code: i32) -> bool {
    exit_code == 0 && subcommand(args) == Some("push"@)
}

/// Only a successful `push` is reported: no report is due for any other
/// subcommand (`pull`, `fetch`, `status`, ...) or none, whatever the exit
/// code, nor after a failed push; `push` exiting with 0 is reported, with
/// or without leading global options.
pub proof fn law_only_successful_push_reported(
    args: Seq<Seq<char>>,
    exit_code: i32,
    word: Seq<char>,
    opt: Seq<char>,
    value: Seq<char>,
    rest: Seq<Seq<char>>,
)
    ensures
        subcommand(args) != Some("push"@) ==> !report_due(args, exit_code),
        exit_code != 0 ==> !report_due(args, exit_code),
        word.len() > 0 && word[0] != '-' && word != "push"@ ==> !report_due(
            seq![word] + rest,
            exit_code,
        ),
        report_due(seq!["push"@] + rest, 0),
        (opt == "-C"@ || opt == "-c"@ || opt == "--namespace"@) ==> report_due(
            seq![opt, value, "push"@] + rest,
            0,
        ),
{
    reveal_strlit("push");
    if word.len() > 0 && word[0] != '-' {
        law_plain_first_argument(Seq::empty(), seq![word] + rest);
        assert((seq![word] + rest)[0] == word);
    }
    law_plain_first_argument(Seq::empty(), seq!["push"@] + rest);
    assert((seq!["push"@] + rest)[0] == "push"@);
    if opt == "-C"@ || opt == "-c"@ || opt == "--namespace"@ {
        law_global_pair_keeps_subcommand(opt, value, seq!["push"@] + rest);
        assert(seq![opt, value, "push"@] + rest =~= seq![opt, value] + (seq!["push"@] + rest));
    }
}

/// Whether a report is due after git ran with `git_argv` and exited with `exit_code`.
pub fn maybe_record_after_git(git_argv: &[String], exit_code: i32) -> (res: bool)
    ensures
        res == report_due(args_view(git_argv@), exit_code),
{
    if exit_code != 0 {
        return false;
    }
    match first_git_subcommand(git_argv) {
        Some(cmd) => str_eq(cmd, "push"),
        None => false,
    }
}

/// The URL of an endpoint: `base` without its trailing `/`s, then `path`; none
/// where nothing of `base` is left.
pub open spec fn joined_url(base: Seq<char>, path: Seq<char>) -> Option<Seq<char>> {
    let b = trim_end_char(base, '/');
    if b.len() == 0 {
        None
    } else {
        Some(b + path)
    }
}

/// A trailing `/` on the API URL makes no difference to the endpoint's URL.
pub proof fn law_trailing_slash_ignored(base: Seq<char>, path: Seq<char>)
    ensures
        joined_url(base.push('/'), path) == joined_url(base, path),
{
    assert(base.push('/').drop_last() =~= base);
}

/// The endpoint's URL is a non-empty prefix of the API URL that leaves out
/// only trailing `/`s, followed by the path; there is none exactly when the
/// API URL is nothing but `/`s.
pub proof fn law_joined_url_shape(base: Seq<char>, path: Seq<char>)
    ensures
        joined_url(base, path) is None <==> (forall|i: int| 0 <= i < base.len() ==> base[i] == '/'),
        joined_url(base, path) matches Some(u) ==> exists|k: int|
            0 < k <= base.len() && base[k - 1] != '/' && u == base.take(k) + path && (forall|i: int|
                k <= i < base.len() ==> base[i] == '/'),
    decreases base.len(),
{
    if base.len() > 0 && base.last() == '/' {
        law_joined_url_shape(base.drop_last(), path);
        let b = base.drop_last();
        if joined_url(b, path) is Some {
            let k = choose|k: int|
                0 < k <= b.len() && b[k - 1] != '/' && joined_url(b, path)->0 == b.take(k) + path
                    && (forall|i: int| k <= i < b.len() ==> b[i] == '/');
            assert(b.take(k) =~= base.take(k));
            assert(forall|i: int| k <= i < base.len() ==> base[i] == '/') by {
                assert forall|i: int| k <= i < base.len() implies base[i] == '/' by {
                    if i < b.len() {
                        assert(base[i] == b[i]);
                    }
                }
            }
        } else {
            assert forall|i: int| 0 <= i < base.len() implies base[i] == '/' by {
                if i < b.len() {
                    assert(base[i] == b[i]);
                }
            }
        }
        if forall|i: int| 0 <= i < base.len() ==> base[i] == '/' {
            assert forall|i: int| 0 <= i < b.len() implies b[i] == '/' by {
                assert(b[i] == base[i]);
            }
        }
    } else if base.len() > 0 {
        assert(base.take(base.len() as int) =~= base);
        assert(base[base.len() - 1] != '/');
    }
}

/// `base` and `path` joined into one URL.
pub fn join_url(base: &str, path: &str) -> (res: Result<String, ReportError>)
    ensures
        joined_url(base@, path@) is None ==> res matches Err(ReportError::InvalidUrl),
        joined_url(base@, path@) matches Some(u) ==> (res matches Ok(r) && r@ == u),
{
    let base = trim_end_matches_char(base, '/');
    if base.unicode_len() == 0 {
        return Err(ReportError::InvalidUrl);
    }
    let mut res = base.to_owned();
    res.append(path);
    Ok(res)
}

/// What to do about a report that may be sent.
pub enum ReportPlan {
    /// Reporting is off; `missing_key_hint` asks to tell the user how to set a key.
    Skip { missing_key_hint: bool },
    /// Send the report to `url` with `api_key`.
    Send { url: String, api_key: String },
}

/// The plan for a report under `cfg`: skip it where reporting is off (with a
/// hint where no key is configured), else send it to the report endpoint below
/// the API URL, or fail where that URL is empty.
pub fn plan_contribution_report(cfg: &Config) -> (res: Result<ReportPlan, ReportError>)
    ensures
        !reports_enabled(cfg@) ==> (res matches Ok(ReportPlan::Skip { missing_key_hint })
            && missing_key_hint == !has_key(cfg@)),
        reports_enabled(cfg@) && joined_url(cfg@.api_url->0, REPORT_PATH@) is None ==> res matches Err(
            ReportError::InvalidUrl,
        ),
        reports_enabled(cfg@) && joined_url(cfg@.api_url->0, REPORT_PATH@) is Some ==> (res matches Ok(
            ReportPlan::Send { url, api_key },
        ) && url@ == joined_url(cfg@.api_url->0, REPORT_PATH@)->0 && cfg@.api_key == Some(api_key@)),
{
    if !cfg.reporting_enabled() {
        return Ok(ReportPlan::Skip { missing_key_hint: !cfg.has_api_key() });
    }
    let base = cfg.api_url_or_default();
    let api_key = match &cfg.api_key {
        Some(k) => k.clone(),
        None => String::new(),
    };
    match join_url(base, REPORT_PATH) {
        Ok(url) => Ok(ReportPlan::Send { url, api_key }),
        Err(e) => Err(e),
    }
}

/// The outcome of a report from the answer of the API: success, or an HTTP
/// error that carries the status line and the body.
pub fn contribution_response(success: bool, status: &str, body: &str) -> (res: Result<(), ReportError>)
    ensures
        success ==> res is Ok,
        !success ==> (res matches Err(ReportError::Http(m)) && m@ == status@ + " "@ + body@),
{
    if success {
        Ok(())
    } else {
        let mut m = status.to_owned();
        m.append(" ");
        m.append(body);
        Err(ReportError::Http(m))
    }
}

/// The SHA-256 digest of a byte sequence.
pub uninterp spec fn sha256(data: Seq<u8>) -> Seq<u8>;

/// Calls `sha2::Sha256::digest` on `data`. Claimed: the result is the digest
/// named `sha256` of the bytes and has 32 bytes, SHA-256's output size (the
/// crate's output type is an array of `U32` bytes).
#[verifier::external_body]
fn sha256_digest(data: &[u8]) -> (res: Vec<u8>)
    ensures
        res@ == sha256(data@),
        res@.len() == 32,
{
    sha2::Sha256::digest(data).to_vec()
}

/// The sixteen lower-case hex digits.
pub open spec fn hex_digits() -> Seq<char> {
    seq!['0', '1', '2', '3', '4', '5', '6', '7', '8', '9', 'a', 'b', 'c', 'd', 'e', 'f']
}

/// Two lower-case hex digits per byte.
pub open spec fn hex_lower(bytes: Seq<u8>) -> Seq<char>
    decreases bytes.len(),
{
    if bytes.len() == 0 {
        seq![]
    } else {
        let b = bytes.last();
        hex_lower(bytes.drop_last()) + seq![hex_digits()[(b / 16) as int], hex_digits()[(b % 16) as int]]
    }
}

/// The opaque repository fingerprint of a text: the hex form of the first
/// eight bytes of the SHA-256 digest of its UTF-8 bytes.
pub open spec fn fingerprint(s: Seq<char>) -> Seq<char> {
    hex_lower(sha256(encode_utf8(s)).subrange(0, 8))
}

/// Every character of `s` is a lower-case hex digit.
pub open spec fn all_hex(s: Seq<char>) -> bool {
    forall|i: int| 0 <= i < s.len() ==> hex_digits().contains(#[trigger] s[i])
}

proof fn lemma_hex_lower(bytes: Seq<u8>)
    ensures
        hex_lower(bytes).len() == 2 * bytes.len(),
        all_hex(hex_lower(bytes)),
    decreases bytes.len(),
{
    if bytes.len() > 0 {
        lemma_hex_lower(bytes.drop_last());
        let b = bytes.last();
        let h = hex_lower(bytes);
        let p = hex_lower(bytes.drop_last());
        assert(hex_digits().contains(hex_digits()[(b / 16) as int]));
        assert(hex_digits().contains(hex_digits()[(b % 16) as int]));
        assert forall|i: int| 0 <= i < h.len() implies hex_digits().contains(#[trigger] h[i]) by {
            if i < p.len() {
                assert(h[i] == p[i]);
            }
        }
    }
}

/// The hex form of the first eight bytes of a digest.
pub fn fingerprint_hex(digest: &[u8]) -> (res: String)
    requires
        digest@.len() >= 8,
    ensures
        res@ == hex_lower(digest@.subrange(0, 8)),
        res@.len() == 16,
        all_hex(res@),
{
    let digits = "0123456789abcdef";
    proof {
        reveal_strlit("0123456789abcdef");
        assert(digits@ =~= hex_digits());
    }
    let mut res = String::new();
    for i in 0..8
        invariant
            digest@.len() >= 8,
            digits@ == hex_digits(),
            res@ == hex_lower(digest@.subrange(0, i as int)),
    {
        let b = digest[i];
        let hi = (b / 16) as usize;
        let lo = (b % 16) as usize;
        res.append(digits.substring_char(hi, hi + 1));
        res.append(digits.substring_char(lo, lo + 1));
        proof {
            assert(digest@.subrange(0, i + 1).drop_last() =~= digest@.subrange(0, i as int));
            assert(digits@.subrange(hi as int, hi + 1) =~= seq![hex_digits()[(b / 16) as int]]);
            assert(digits@.subrange(lo as int, lo + 1) =~= seq![hex_digits()[(b % 16) as int]]);
        }
    }
    proof {
        lemma_hex_lower(digest@.subrange(0, 8));
    }
    res
}

/// The opaque fingerprint of `s`: sixteen lower-case hex digits.
pub fn fingerprint_opaque(s: &str) -> (res: String)
    ensures
        res@ == fingerprint(s@),
        res@.len() == 16,
        all_hex(res@),
{
    let digest = sha256_digest(s.as_bytes());
    fingerprint_hex(digest.as_slice())
}

/// Where a repository id is looked for, in this order.
#[derive(Debug, Clone, Copy, PartialEq, Eq)]
pub enum RepoIdSource {
    /// `gitcredit.repositoryId` in the repository's git config.
    ConfiguredId,
    /// The URL of the `origin` remote.
    OriginUrl,
    /// The absolute path of the git common directory (shared by worktrees).
    CommonDir,
}

/// The next step in looking for a repository id.
pub enum RepoIdStep {
    /// Run git for this source and hand back its one line of output.
    Ask(RepoIdSource),
    /// The search is over, with this id or none.
    Found(Option<String>),
}

/// A step of the search, as text.
pub enum RepoIdStepModel {
    Ask(RepoIdSource),
    Found(Option<Seq<char>>),
}

impl View for RepoIdStep {
    type V = RepoIdStepModel;

    open spec fn view(&self) -> RepoIdStepModel {
        match self {
            RepoIdStep::Ask(s) => RepoIdStepModel::Ask(*s),
            RepoIdStep::Found(id) => RepoIdStepModel::Found(opt_view(*id)),
        }
    }
}

/// The step after `source` answered `reply`: a configured id is taken as it
/// stands; an origin URL or common directory is taken by its fingerprint; a
/// missing or blank answer moves on to the next source, and after the last
/// one ends the search with no id.
pub open spec fn repo_id_step(source: RepoIdSource, reply: Option<Seq<char>>) -> RepoIdStepModel {
    match (source, non_blank_opt(reply)) {
        (RepoIdSource::ConfiguredId, Some(t)) => RepoIdStepModel::Found(Some(t)),
        (RepoIdSource::ConfiguredId, None) => RepoIdStepModel::Ask(RepoIdSource::OriginUrl),
        (RepoIdSource::OriginUrl, Some(u)) => RepoIdStepModel::Found(Some(fingerprint(u))),
        (RepoIdSource::OriginUrl, None) => RepoIdStepModel::Ask(RepoIdSource::CommonDir),
        (RepoIdSource::CommonDir, Some(u)) => RepoIdStepModel::Found(Some(fingerprint(u))),
        (RepoIdSource::CommonDir, None) => RepoIdStepModel::Found(None),
    }
}

/// A configured id is taken trimmed as it stands; an origin URL or common
/// directory yields the hex form of the first eight bytes of the SHA-256
/// digest of its whole trimmed UTF-8 text; a blank or missing answer moves
/// from the configured id to the origin URL, from there to the common
/// directory, and from there to no id.
pub proof fn law_repository_id_sources(u: Seq<char>)
    ensures
        non_blank(u) is Some ==> repo_id_step(RepoIdSource::ConfiguredId, Some(u))
            == RepoIdStepModel::Found(Some(trim(u))),
        non_blank(u) is Some ==> repo_id_step(RepoIdSource::OriginUrl, Some(u))
            == RepoIdStepModel::Found(Some(hex_lower(sha256(encode_utf8(trim(u))).subrange(0, 8)))),
        non_blank(u) is Some ==> repo_id_step(RepoIdSource::CommonDir, Some(u))
            == RepoIdStepModel::Found(Some(hex_lower(sha256(encode_utf8(trim(u))).subrange(0, 8)))),
        non_blank(u) is None ==> repo_id_step(RepoIdSource::ConfiguredId, Some(u))
            == RepoIdStepModel::Ask(RepoIdSource::OriginUrl),
        repo_id_step(RepoIdSource::ConfiguredId, None) == RepoIdStepModel::Ask(RepoIdSource::OriginUrl),
        repo_id_step(RepoIdSource::OriginUrl, None) == RepoIdStepModel::Ask(RepoIdSource::CommonDir),
        repo_id_step(RepoIdSource::CommonDir, None) == RepoIdStepModel::Found(None),
{
}

/// The git arguments that ask a source for its value.
pub open spec fn source_args(source: RepoIdSource) -> Seq<Seq<char>> {
    match source {
        RepoIdSource::ConfiguredId => seq!["config"@, "--get"@, "gitcredit.repositoryId"@],
        RepoIdSource::OriginUrl => seq!["remote"@, "get-url"@, "origin"@],
        RepoIdSource::CommonDir => seq!["rev-parse"@, "--path-format=absolute"@, "--git-common-dir"@],
    }
}

impl RepoIdSource {
    /// The git arguments that ask this source for its value.
    pub fn git_args(&self) -> (res: Vec<&'static str>)
        ensures
            res@.map_values(|a: &str| a@) == source_args(*self),
    {
        let res = match self {
            RepoIdSource::ConfiguredId => vec!["config", "--get", "gitcredit.repositoryId"],
            RepoIdSource::OriginUrl => vec!["remote", "get-url", "origin"],
            RepoIdSource::CommonDir => vec!["rev-parse", "--path-format=absolute", "--git-common-dir"],
        };
        assert(res@.map_values(|a: &str| a@) =~= source_args(*self));
        res
    }
}

/// One step of the search for the repository id that a report carries: takes
/// the source that was asked and its answer (`None` where git failed or said
/// nothing) and gives the next source to ask or the id.
pub fn resolve_repository_id(source: RepoIdSource, reply: Option<String>) -> (res: RepoIdStep)
    ensures
        res@ == repo_id_step(source, opt_view(reply)),
{
    let value = opt_non_blank(&reply);
    match source {
        RepoIdSource::ConfiguredId => match value {
            Some(t) => RepoIdStep::Found(Some(t)),
            None => RepoIdStep::Ask(RepoIdSource::OriginUrl),
        },
        RepoIdSource::OriginUrl => match value {
            Some(u) => RepoIdStep::Found(Some(fingerprint_opaque(u.as_str()))),
            None => RepoIdStep::Ask(RepoIdSource::CommonDir),
        },
        RepoIdSource::CommonDir => match value {
            Some(u) => RepoIdStep::Found(Some(fingerprint_opaque(u.as_str()))),
            None => RepoIdStep::Found(None),
        },
    }
}

} // verus!
