//! Configuration: where the API URL and key come from, how a saved key is
//! written into the config file, and how a key is shown masked.

use vstd::prelude::*;
use vstd::utf8::{
    decode_utf8, decode_utf8_split, encode_utf8, is_ascii_chars, is_char_boundary,
    is_char_boundary_iff_not_is_continuation_byte, valid_utf8,
};

use crate::text::{
    is_white_space,
    is_blank, lemma_trim_empty_iff_blank, lemma_trim_idempotent, non_blank, non_blank_opt, non_blank_trimmed, opt_non_blank,
    opt_view, trim, trim_str,
};

verus! {

broadcast use vstd::utf8::group_utf8_lib;

/// The API that reports go to when no other URL is configured.
pub const DEFAULT_API_URL: &'static str = "https://adodsq6tonhgvzolgsaymofinu0kvtwf.lambda-url.us-east-1.on.aws";

/// The resolved settings.
#[derive(Debug, Clone)]
pub struct Config {
    pub api_url: Option<String>,
    pub api_key: Option<String>,
}

/// The contents of the config file. Older files hold the key under `token`.
#[derive(Debug, Clone)]
pub struct FileConfig {
    pub api_url: Option<String>,
    pub api_key: Option<String>,
    pub token: Option<String>,
}

/// The settings as text.
pub struct ConfigModel {
    pub api_url: Option<Seq<char>>,
    pub api_key: Option<Seq<char>>,
}

/// The config file as text.
pub struct FileConfigModel {
    pub api_url: Option<Seq<char>>,
    pub api_key: Option<Seq<char>>,
    pub token: Option<Seq<char>>,
}

impl View for Config {
    type V = ConfigModel;

    open spec fn view(&self) -> ConfigModel {
        ConfigModel { api_url: opt_view(self.api_url), api_key: opt_view(self.api_key) }
    }
}

impl View for FileConfig {
    type V = FileConfigModel;

    open spec fn view(&self) -> FileConfigModel {
        FileConfigModel {
            api_url: opt_view(self.api_url),
            api_key: opt_view(self.api_key),
            token: opt_view(self.token),
        }
    }
}

/// The first of two options that is present.
pub open spec fn first_some<T>(a: Option<T>, b: Option<T>) -> Option<T> {
    match a {
        Some(x) => Some(x),
        None => b,
    }
}

/// The API URL: the config file's where it is set and not blank, else the
/// environment's where it is set and not blank, else the default.
pub open spec fn resolved_api_url(
    env_api_url: Option<Seq<char>>,
    file: Option<FileConfigModel>,
) -> Seq<char> {
    let from_file = match file {
        Some(f) => non_blank_opt(f.api_url),
        None => None,
    };
    match first_some(from_file, non_blank_opt(env_api_url)) {
        Some(u) => u,
        None => DEFAULT_API_URL@,
    }
}

/// The API key: the environment's (`GITCREDIT_API_KEY`, else the older
/// `GITCREDIT_TOKEN`, each only where not blank); else the config file's
/// `api_key`, or `token` where `api_key` is absent, where that is not blank.
pub open spec fn resolved_api_key(
    env_api_key: Option<Seq<char>>,
    env_token: Option<Seq<char>>,
    file: Option<FileConfigModel>,
) -> Option<Seq<char>> {
    match first_some(non_blank_opt(env_api_key), non_blank_opt(env_token)) {
        Some(k) => Some(k),
        None => match file {
            Some(f) => non_blank_opt(first_some(f.api_key, f.token)),
            None => None,
        },
    }
}

/// A key is configured: present and not blank.
pub open spec fn has_key(c: ConfigModel) -> bool {
    c.api_key matches Some(k) && !is_blank(k)
}

/// Reports can be sent: a non-empty URL and a key.
pub open spec fn reports_enabled(c: ConfigModel) -> bool {
    &&& c.api_url matches Some(u) && u.len() > 0
    &&& has_key(c)
}

/// The config file after a key is saved into it: the key replaces `api_key`
/// and drops `token`; a missing or blank URL becomes the default one.
pub open spec fn stored_file(f: FileConfigModel, key: Seq<char>) -> FileConfigModel {
    FileConfigModel {
        api_url: match f.api_url {
            Some(u) if !is_blank(u) => Some(u),
            _ => Some(DEFAULT_API_URL@),
        },
        api_key: Some(key),
        token: None,
    }
}

/// The masked form of a key: `****` where its trimmed UTF-8 encoding has at most
/// eight bytes, else its first four bytes, `…` and its last four bytes.
pub open spec fn masked(key: Seq<char>) -> Seq<char> {
    let b = encode_utf8(trim(key));
    if b.len() <= 8 {
        "****"@
    } else {
        decode_utf8(b.subrange(0, 4)) + "…"@ + decode_utf8(b.subrange(b.len() - 4, b.len() as int))
    }
}

/// Byte offsets 4 and `len - 4` of a long trimmed key fall on character
/// boundaries (the masked form cuts the key there).
pub open spec fn maskable(key: Seq<char>) -> bool {
    let b = encode_utf8(trim(key));
    b.len() <= 8 || (is_char_boundary(b, 4) && is_char_boundary(b, b.len() - 4))
}

fn blank(s: &str) -> (res: bool)
    ensures
        res == is_blank(s@),
{
    proof {
        lemma_trim_empty_iff_blank(s@);
    }
    trim_str(s).unicode_len() == 0
}

impl Config {
    /// Resolves the settings from the environment's `GITCREDIT_API_URL`,
    /// `GITCREDIT_API_KEY` and `GITCREDIT_TOKEN` and the parsed config file,
    /// where there is one.
    pub fn resolve(
        env_api_url: Option<String>,
        env_api_key: Option<String>,
        env_token: Option<String>,
        file: Option<FileConfig>,
    ) -> (cfg: Config)
        ensures
            cfg@.api_url == Some(
                resolved_api_url(
                    opt_view(env_api_url),
                    match file {
                        Some(f) => Some(f@),
                        None => None,
                    },
                ),
            ),
            cfg@.api_key == resolved_api_key(
                opt_view(env_api_key),
                opt_view(env_token),
                match file {
                    Some(f) => Some(f@),
                    None => None,
                },
            ),
    {
        let mut cfg = Config { api_url: Some(DEFAULT_API_URL.to_owned()), api_key: None };
        if let Some(url) = opt_non_blank(&env_api_url) {
            cfg.api_url = Some(url);
        }
        let env_key = match opt_non_blank(&env_api_key) {
            Some(k) => Some(k),
            None => opt_non_blank(&env_token),
        };
        if let Some(key) = env_key {
            cfg.api_key = Some(key);
        }
        if let Some(f) = file {
            if let Some(url) = opt_non_blank(&f.api_url) {
                cfg.api_url = Some(url);
            }
            if cfg.api_key.is_none() {
                let stored = match f.api_key {
                    Some(k) => Some(k),
                    None => f.token,
                };
                cfg.api_key = opt_non_blank(&stored);
            }
        }
        cfg
    }

    /// An API key is configured and is not blank.
    pub fn has_api_key(&self) -> (res: bool)
        ensures
            res == has_key(self@),
    {
        match &self.api_key {
            Some(k) => !blank(k.as_str()),
            None => false,
        }
    }

    /// Reports are sent: the API URL is set and not empty, and a key is configured.
    pub fn reporting_enabled(&self) -> (res: bool)
        ensures
            res == reports_enabled(self@),
            res ==> has_key(self@),
    {
        let url_set = match &self.api_url {
            Some(u) => u.as_str().unicode_len() != 0,
            None => false,
        };
        url_set && self.has_api_key()
    }

    /// The API URL, or the default where none is set.
    pub fn api_url_or_default(&self) -> (res: &str)
        ensures
            res@ == match self@.api_url {
                Some(u) => u,
                None => DEFAULT_API_URL@,
            },
    {
        match &self.api_url {
            Some(u) => u.as_str(),
            None => DEFAULT_API_URL,
        }
    }
}

/// The key to save: the trimmed `api_key`, or an error where it is blank.
pub fn checked_api_key(api_key: &str) -> (res: Result<String, String>)
    ensures
        res matches Ok(k) ==> non_blank(api_key@) == Some(k@),
        res matches Err(e) ==> non_blank(api_key@) is None && e@ == "API key cannot be empty"@,
{
    match non_blank_trimmed(api_key) {
        Some(k) => Ok(k),
        None => Err("API key cannot be empty".to_owned()),
    }
}

impl FileConfig {
    /// The file after `api_key` is saved into it.
    pub fn store_api_key(self, api_key: String) -> (res: FileConfig)
        ensures
            res@ == stored_file(self@, api_key@),
    {
        let api_url = match self.api_url {
            Some(u) => if blank(u.as_str()) {
                Some(DEFAULT_API_URL.to_owned())
            } else {
                Some(u)
            },
            None => Some(DEFAULT_API_URL.to_owned()),
        };
        FileConfig { api_url, api_key: Some(api_key), token: None }
    }
}

/// The key as it may be shown: `****` for a short key, else its first and last
/// four bytes around `…`.
pub fn mask_api_key(key: &str) -> (res: String)
    requires
        maskable(key@),
    ensures
        res@ == masked(key@),
{
    let key = trim_str(key);
    let n = key.as_bytes().len();
    if n <= 8 {
        proof {
            reveal_strlit("****");
        }
        return "****".to_owned();
    }
    let (head, _) = key.split_at(4);
    let (_, tail) = key.split_at(n - 4);
    let mut res = head.to_owned();
    res.append("…");
    res.append(tail);
    proof {
        reveal_strlit("…");
        assert(decode_utf8(encode_utf8(head@)) == head@);
        assert(decode_utf8(encode_utf8(tail@)) == tail@);
    }
    res
}

/// `GITCREDIT_API_KEY`, where set and not blank, is the key, trimmed,
/// whatever `GITCREDIT_TOKEN` and the file hold; `GITCREDIT_TOKEN` counts
/// only where `GITCREDIT_API_KEY` is absent or blank, and then beats the file.
pub proof fn law_env_key_precedence(
    k: Seq<char>,
    t: Seq<char>,
    key: Option<Seq<char>>,
    token: Option<Seq<char>>,
    file: Option<FileConfigModel>,
)
    ensures
        non_blank(k) is Some ==> resolved_api_key(Some(k), token, file) == Some(trim(k)),
        non_blank_opt(key) is None && non_blank(t) is Some ==> resolved_api_key(key, Some(t), file)
            == Some(trim(t)),
{
}

/// The config file's URL, where set and not blank, is the URL, trimmed,
/// whatever the environment says; else the environment's, where set and not
/// blank; else the default.
pub proof fn law_url_precedence(
    env_url: Option<Seq<char>>,
    file_url: Seq<char>,
    env: Seq<char>,
    f: FileConfigModel,
)
    ensures
        f.api_url == Some(file_url) && non_blank(file_url) is Some ==> resolved_api_url(
            env_url,
            Some(f),
        ) == trim(file_url),
        non_blank_opt(f.api_url) is None && non_blank(env) is Some ==> resolved_api_url(
            Some(env),
            Some(f),
        ) == trim(env) && resolved_api_url(Some(env), None) == trim(env),
        non_blank_opt(env_url) is None ==> resolved_api_url(env_url, None) == DEFAULT_API_URL@,
{
}

/// Saving a key keeps a non-blank URL of the file, puts the default in
/// place of a missing or blank one, stores exactly the given key and drops
/// the older `token`.
pub proof fn law_store_api_key(f: FileConfigModel, key: Seq<char>, u: Seq<char>)
    ensures
        stored_file(f, key).api_key == Some(key),
        stored_file(f, key).token is None,
        f.api_url == Some(u) && !is_blank(u) ==> stored_file(f, key).api_url == Some(u),
        f.api_url is None ==> stored_file(f, key).api_url == Some(DEFAULT_API_URL@),
        f.api_url == Some(u) && is_blank(u) ==> stored_file(f, key).api_url == Some(DEFAULT_API_URL@),
{
}

/// A long key is shown as a prefix of the trimmed key that takes four bytes,
/// `…`, and a suffix that takes four bytes, with nothing of the key between
/// them shown; a key of at most eight bytes is shown as `****`.
pub proof fn law_mask_shape(key: Seq<char>)
    requires
        maskable(key),
    ensures
        encode_utf8(trim(key)).len() <= 8 ==> masked(key) == "****"@,
        encode_utf8(trim(key)).len() > 8 ==> exists|i: int, j: int|
            0 < i <= j < trim(key).len() && encode_utf8(trim(key).take(i)).len() == 4
                && encode_utf8(trim(key).skip(j)).len() == 4 && masked(key) == trim(key).take(i)
                + seq!['\u{2026}'] + trim(key).skip(j),
{
    reveal_strlit("…");
    let t = trim(key);
    let b = encode_utf8(t);
    let n = b.len() as int;
    if n > 8 {
        let h = decode_utf8(b.subrange(0, 4));
        let tl = decode_utf8(b.subrange(n - 4, n));
        assert(valid_utf8(b));
        assert(valid_utf8(b.subrange(0, 4)));
        assert(valid_utf8(b.subrange(n - 4, n)));
        assert(encode_utf8(h) == b.subrange(0, 4));
        assert(encode_utf8(tl) == b.subrange(n - 4, n));
        assert(decode_utf8(b) == t);
        decode_utf8_split(b, 4);
        decode_utf8_split(b, n - 4);
        let rest_after = decode_utf8(b.subrange(4, n));
        let rest_before = decode_utf8(b.subrange(0, n - 4));
        assert(t == h + rest_after);
        assert(t == rest_before + tl);
        assert(h.len() > 0) by {
            if h.len() == 0 {
                assert(encode_utf8(h).len() == 0);
            }
        }
        assert(tl.len() > 0) by {
            if tl.len() == 0 {
                assert(encode_utf8(tl).len() == 0);
            }
        }
        let i = h.len() as int;
        let j = rest_before.len() as int;
        assert(t.take(i) =~= h);
        assert(t.skip(j) =~= tl);
        // The two parts do not overlap: together they take 8 of more than 8 bytes.
        lemma_encode_concat(rest_before, tl);
        assert(encode_utf8(rest_before).len() == n - 4);
        assert(j >= i) by {
            if j < i {
                let r = rest_before;
                assert(h =~= r + h.skip(j)) by {
                    assert(t.take(i) =~= r + t.subrange(j, i));
                }
                lemma_encode_concat(r, h.skip(j));
            }
        }
        assert("…"@ =~= seq!['\u{2026}']);
        assert(j < t.len());
        assert(0 < i);
        assert(encode_utf8(t.take(i)).len() == 4);
        assert(encode_utf8(t.skip(j)).len() == 4);
        assert(masked(key) == t.take(i) + seq!['\u{2026}'] + t.skip(j));
    }
}

/// What `configure api-key` saves is what the next start loads: once a key
/// has been accepted and stored into the config file, and no key is set in the
/// environment, the resolved key is the stored one and reports are enabled,
/// whatever the file held before and whatever URL the environment sets.
pub proof fn law_saved_key_is_loaded(
    file: FileConfigModel,
    raw_key: Seq<char>,
    env_api_url: Option<Seq<char>>,
)
    requires
        non_blank(raw_key) is Some,
    ensures
        ({
            let key = non_blank(raw_key)->0;
            let saved = stored_file(file, key);
            let cfg = ConfigModel {
                api_url: Some(resolved_api_url(env_api_url, Some(saved))),
                api_key: resolved_api_key(None, None, Some(saved)),
            };
            &&& cfg.api_key == Some(key)
            &&& reports_enabled(cfg)
        }),
{
    let key = trim(raw_key);
    lemma_trim_idempotent(raw_key);
    lemma_trim_empty_iff_blank(key);
    let saved = stored_file(file, key);
    assert(non_blank(key) == Some(key));
    let url = saved.api_url->0;
    if url == DEFAULT_API_URL@ {
        reveal_strlit("https://adodsq6tonhgvzolgsaymofinu0kvtwf.lambda-url.us-east-1.on.aws");
        assert(!is_white_space(url[0]));
        assert(!is_blank(url));
    }
    assert(!is_blank(url));
    lemma_trim_empty_iff_blank(url);
    assert(non_blank_opt(saved.api_url) == Some(trim(url)));
}

proof fn lemma_encode_concat(a: Seq<char>, c: Seq<char>)
    ensures
        encode_utf8(a + c) == encode_utf8(a) + encode_utf8(c),
    decreases a.len(),
{
    if a.len() > 0 {
        assert((a + c).drop_first() =~= a.drop_first() + c);
        lemma_encode_concat(a.drop_first(), c);
        assert(encode_utf8(a + c) =~= encode_utf8(a) + encode_utf8(c));
    } else {
        assert(a + c =~= c);
    }
}

proof fn lemma_encode_nonempty(a: Seq<char>)
    requires
        a.len() > 0,
    ensures
        encode_utf8(a).len() > 0,
{
}

/// Text with no white space at its ends is its own trimmed form.
proof fn lemma_trimmed_already(s: Seq<char>)
    requires
        s.len() > 0,
        !is_white_space(s[0]),
        !is_white_space(s.last()),
    ensures
        trim(s) == s,
{
}

/// The first byte of a valid non-empty encoding starts a character.
proof fn lemma_first_byte_leads(v: Seq<u8>)
    requires
        valid_utf8(v),
        v.len() > 0,
    ensures
        !vstd::utf8::is_continuation_byte(v[0]),
{
    is_char_boundary_iff_not_is_continuation_byte(v, 0);
}

/// Masking a masked key changes nothing, and a masked key can always be
/// masked again.
pub proof fn law_mask_idempotent(key: Seq<char>)
    requires
        maskable(key),
    ensures
        maskable(masked(key)),
        masked(masked(key)) == masked(key),
{
    let t = trim(key);
    let b = encode_utf8(t);
    let n = b.len() as int;
    reveal_strlit("****");
    reveal_strlit("…");
    if n <= 8 {
        let m = "****"@;
        assert(m.len() == 4);
        assert(!is_white_space(m[0]) && !is_white_space(m.last()));
        lemma_trimmed_already(m);
        assert(is_ascii_chars(m));
        assert(encode_utf8(m).len() == 4);
    } else {
        lemma_trim_idempotent(key);
        let h = decode_utf8(b.subrange(0, 4));
        let tl = decode_utf8(b.subrange(n - 4, n));
        let e = "…"@;
        let m = h + e + tl;
        assert(valid_utf8(b));
        assert(valid_utf8(b.subrange(0, 4)));
        assert(valid_utf8(b.subrange(n - 4, n)));
        let bh = b.subrange(0, 4);
        let bt = b.subrange(n - 4, n);
        assert(encode_utf8(h) == bh);
        assert(encode_utf8(tl) == bt);
        assert(decode_utf8(b) == t);
        decode_utf8_split(b, 4);
        decode_utf8_split(b, n - 4);
        let rest_after = decode_utf8(b.subrange(4, n));
        let rest_before = decode_utf8(b.subrange(0, n - 4));
        assert(t == h + rest_after);
        assert(t == rest_before + tl);
        assert(h.len() > 0) by {
            if h.len() == 0 {
                assert(encode_utf8(h).len() == 0);
            }
        }
        assert(tl.len() > 0) by {
            if tl.len() == 0 {
                assert(encode_utf8(tl).len() == 0);
            }
        }
        assert(h[0] == t[0]);
        assert(tl.last() == t.last());
        assert(m[0] == h[0]);
        assert(m.last() == tl.last());
        lemma_trimmed_already(m);
        lemma_encode_concat(h + e, tl);
        lemma_encode_concat(h, e);
        lemma_encode_concat(e, tl);
        lemma_encode_nonempty(e);
        let ee = encode_utf8(e);
        let big = encode_utf8(m);
        assert(big == bh + ee + bt);
        let len = big.len() as int;
        assert(len > 8);
        assert(big.subrange(0, 4) =~= bh);
        assert(big.subrange(len - 4, len) =~= bt);
        // Both cuts of the masked form start a character.
        assert(valid_utf8(big));
        let v1 = encode_utf8(e + tl);
        assert(big =~= bh + v1);
        lemma_first_byte_leads(v1);
        assert(big[4] == v1[0]);
        is_char_boundary_iff_not_is_continuation_byte(big, 4);
        lemma_first_byte_leads(bt);
        assert(big[len - 4] == bt[0]);
        is_char_boundary_iff_not_is_continuation_byte(big, len - 4);
    }
}

} // verus!
