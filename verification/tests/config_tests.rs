use gitcredit::config::{checked_api_key, mask_api_key, Config, FileConfig, DEFAULT_API_URL};

fn s(v: &str) -> Option<String> {
    Some(v.to_string())
}

fn file(url: Option<String>, key: Option<String>, token: Option<String>) -> FileConfig {
    FileConfig { api_url: url, api_key: key, token }
}

#[test]
fn defaults_without_sources() {
    let cfg = Config::resolve(None, None, None, None);
    assert_eq!(cfg.api_url.as_deref(), Some(DEFAULT_API_URL));
    assert_eq!(cfg.api_key, None);
    assert!(!cfg.has_api_key());
    assert!(!cfg.reporting_enabled());
}

#[test]
fn env_url_is_trimmed_and_blank_ignored() {
    let cfg = Config::resolve(s("  https://x.example  "), None, None, None);
    assert_eq!(cfg.api_url, s("https://x.example"));
    let cfg = Config::resolve(s("   "), None, None, None);
    assert_eq!(cfg.api_url.as_deref(), Some(DEFAULT_API_URL));
}

#[test]
fn file_url_overrides_env_url() {
    let f = file(s(" https://file.example "), None, None);
    let cfg = Config::resolve(s("https://env.example"), None, None, Some(f));
    assert_eq!(cfg.api_url, s("https://file.example"));
    let f = file(s("  "), None, None);
    let cfg = Config::resolve(s("https://env.example"), None, None, Some(f));
    assert_eq!(cfg.api_url, s("https://env.example"));
}

#[test]
fn env_key_overrides_file_key() {
    let f = file(None, s("filekey"), None);
    let cfg = Config::resolve(None, s(" envkey "), None, Some(f));
    assert_eq!(cfg.api_key, s("envkey"));
}

#[test]
fn legacy_env_token_used_when_key_blank() {
    let cfg = Config::resolve(None, s("   "), s(" tok "), None);
    assert_eq!(cfg.api_key, s("tok"));
    let cfg = Config::resolve(None, None, s("tok"), Some(file(None, s("filekey"), None)));
    assert_eq!(cfg.api_key, s("tok"));
}

#[test]
fn file_key_then_file_token() {
    let cfg = Config::resolve(None, None, None, Some(file(None, s(" k1 "), s("t1"))));
    assert_eq!(cfg.api_key, s("k1"));
    let cfg = Config::resolve(None, None, None, Some(file(None, None, s("t1"))));
    assert_eq!(cfg.api_key, s("t1"));
    // A blank api_key in the file hides the token.
    let cfg = Config::resolve(None, None, None, Some(file(None, s("  "), s("t1"))));
    assert_eq!(cfg.api_key, None);
}

#[test]
fn has_api_key_and_reporting() {
    let cfg = Config { api_url: s("https://x"), api_key: s(" \t ") };
    assert!(!cfg.has_api_key());
    assert!(!cfg.reporting_enabled());
    let cfg = Config { api_url: s("https://x"), api_key: s("k") };
    assert!(cfg.has_api_key());
    assert!(cfg.reporting_enabled());
    let cfg = Config { api_url: s(""), api_key: s("k") };
    assert!(cfg.has_api_key());
    assert!(!cfg.reporting_enabled());
    let cfg = Config { api_url: None, api_key: s("k") };
    assert!(!cfg.reporting_enabled());
}

#[test]
fn url_or_default() {
    let cfg = Config { api_url: None, api_key: None };
    assert_eq!(cfg.api_url_or_default(), DEFAULT_API_URL);
    let cfg = Config { api_url: s("https://y"), api_key: None };
    assert_eq!(cfg.api_url_or_default(), "https://y");
}

#[test]
fn checked_key() {
    assert_eq!(checked_api_key("  abc \n"), Ok("abc".to_string()));
    assert_eq!(checked_api_key(" \t"), Err("API key cannot be empty".to_string()));
    assert_eq!(checked_api_key(""), Err("API key cannot be empty".to_string()));
}

#[test]
fn store_key_into_file() {
    let f = file(None, s("old"), s("oldtoken")).store_api_key("new".to_string());
    assert_eq!(f.api_url.as_deref(), Some(DEFAULT_API_URL));
    assert_eq!(f.api_key, s("new"));
    assert_eq!(f.token, None);
    let f = file(s("https://keep"), None, None).store_api_key("k".to_string());
    assert_eq!(f.api_url, s("https://keep"));
    let f = file(s("  "), None, None).store_api_key("k".to_string());
    assert_eq!(f.api_url.as_deref(), Some(DEFAULT_API_URL));
}

#[test]
fn saved_key_is_loaded_example() {
    let key = checked_api_key("  secret-key-123 ").unwrap();
    let saved = file(s(" "), s("x"), s("y")).store_api_key(key.clone());
    let cfg = Config::resolve(s("https://env"), None, None, Some(saved));
    assert_eq!(cfg.api_key, Some(key));
    assert!(cfg.reporting_enabled());
}

#[test]
fn mask_short_keys() {
    assert_eq!(mask_api_key(""), "****");
    assert_eq!(mask_api_key("abcdefgh"), "****");
    assert_eq!(mask_api_key("  abcdefgh  "), "****");
}

#[test]
fn mask_long_keys() {
    assert_eq!(mask_api_key("abcdefghi"), "abcd…fghi");
    assert_eq!(mask_api_key(" sk_live_0123456789 "), "sk_l…6789");
}

#[test]
fn mask_counts_bytes() {
    // "é" takes two bytes: "ééé" has six, "éééé" eight, "ééééé" ten.
    assert_eq!(mask_api_key("éééé"), "****");
    assert_eq!(mask_api_key("ééééé"), "éé…éé");
}

#[test]
fn mask_is_idempotent_example() {
    let once = mask_api_key("abcdefghijkl");
    assert_eq!(mask_api_key(&once), once);
}
