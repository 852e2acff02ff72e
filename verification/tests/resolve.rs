use pinit_core::config::GitProtocol;
use pinit_core::resolve::{cache_key, is_github_shorthand, looks_like_hex, normalize_repo};

#[test]
fn looks_like_hex_requires_min_len_and_hex_chars() {
    assert!(!looks_like_hex("abc"));
    assert!(!looks_like_hex("zzzzzzz"));
    assert!(looks_like_hex("0123456"));
    assert!(looks_like_hex("deadBEEF"));
}

#[test]
fn normalize_repo_expands_github_shorthand_to_ssh() {
    let repo = normalize_repo("foo/bar", GitProtocol::Ssh);
    assert_eq!(repo, "git@github.com:foo/bar.git");
}

#[test]
fn normalize_repo_expands_github_shorthand_to_https() {
    let repo = normalize_repo("foo/bar", GitProtocol::Https);
    assert_eq!(repo, "https://github.com/foo/bar.git");
}

#[test]
fn normalize_repo_leaves_full_urls_untouched() {
    let https = "https://github.com/foo/bar.git";
    let ssh = "git@github.com:foo/bar.git";
    assert_eq!(normalize_repo(https, GitProtocol::Ssh), https);
    assert_eq!(normalize_repo(ssh, GitProtocol::Https), ssh);
}

#[test]
fn cache_key_is_stable() {
    let a = cache_key("repo", "ref");
    let b = cache_key("repo", "ref");
    assert_eq!(a, b);
    assert_ne!(a, cache_key("repo", "ref2"));
    assert_eq!(a.len(), 64);
    assert_eq!(a, blake3::hash(b"repo\nref").to_hex().to_string());
}

#[test]
fn github_shorthand_needs_owner_and_name() {
    assert!(is_github_shorthand("foo/bar"));
    assert!(is_github_shorthand("foo-1/bar_2.x"));
    assert!(!is_github_shorthand(""));
    assert!(!is_github_shorthand("foo"));
    assert!(!is_github_shorthand("foo/bar/baz"));
    assert!(!is_github_shorthand("foo/bar.git"));
    assert!(!is_github_shorthand("/bar"));
    assert!(!is_github_shorthand("foo/"));
    assert!(!is_github_shorthand("foo/b r"));
    assert!(!is_github_shorthand("a:b/c"));
    assert!(!is_github_shorthand("a\\b/c"));
}
